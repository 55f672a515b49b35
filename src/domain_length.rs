use vstd::prelude::*;
use vstd::string::*;

verus! {

/// Bucket of a domain by the number of characters in its name, the part
/// before the `.o` suffix.
#[derive(Debug, Clone, Copy, PartialEq, Eq, Structural)]
pub enum DomainLength {
    SingleCharacter,
    VeryShort,
    Short,
    Normal,
}

/// Why a string is not a domain that can be classified.
#[derive(Debug, Clone, Copy, PartialEq, Eq, Structural)]
pub enum DomainError {
    /// The lowercased string does not end with `.o`.
    MissingSuffix,
    /// The string is the suffix alone: the name before it is empty.
    EmptyName,
}

/// What `str::to_lowercase` returns for a string.
pub uninterp spec fn lower_of(s: Seq<char>) -> Seq<char>;

/// Relies on `str::to_lowercase`: the lowercase form of the string, which
/// depends on its characters alone.
#[verifier::external_body]
fn lowercase(s: &str) -> (r: String)
    ensures
        r@ == lower_of(s@),
{
    s.to_lowercase()
}

/// Whether `s` ends with the two characters `.o`.
pub open spec fn has_suffix(s: Seq<char>) -> bool {
    s.len() >= 2 && s[s.len() - 2] == '.' && s[s.len() - 1] == 'o'
}

/// The bucket of a name of `n` characters.
pub open spec fn bucket_of(n: nat) -> DomainLength {
    if n == 1 {
        DomainLength::SingleCharacter
    } else if n == 2 {
        DomainLength::VeryShort
    } else if n == 3 {
        DomainLength::Short
    } else {
        DomainLength::Normal
    }
}

/// Classification of an already lowercased domain.
pub open spec fn classify_spec(lower: Seq<char>) -> Result<DomainLength, DomainError> {
    if !has_suffix(lower) {
        Err(DomainError::MissingSuffix)
    } else if lower.len() < 3 {
        Err(DomainError::EmptyName)
    } else {
        Ok(bucket_of((lower.len() - 2) as nat))
    }
}

impl DomainLength {
    /// The identifier under which the bucket is published.
    pub open spec fn name(self) -> Seq<char> {
        match self {
            DomainLength::SingleCharacter => "SingleCharacter"@,
            DomainLength::VeryShort => "VeryShort"@,
            DomainLength::Short => "Short"@,
            DomainLength::Normal => "Normal"@,
        }
    }

    /// The identifier under which the bucket is published.
    pub fn to_string(&self) -> (r: String)
        ensures
            r@ == self.name(),
    {
        match self {
            DomainLength::SingleCharacter => String::from_str("SingleCharacter"),
            DomainLength::VeryShort => String::from_str("VeryShort"),
            DomainLength::Short => String::from_str("Short"),
            DomainLength::Normal => String::from_str("Normal"),
        }
    }
}

/// Classifies a domain that is already in lowercase.
pub fn classify_lowercase(lower: &str) -> (r: Result<DomainLength, DomainError>)
    ensures
        r == classify_spec(lower@),
{
    let n = lower.unicode_len();
    if n < 2 || lower.get_char(n - 2) != '.' || lower.get_char(n - 1) != 'o' {
        Err(DomainError::MissingSuffix)
    } else if n < 3 {
        Err(DomainError::EmptyName)
    } else if n == 3 {
        Ok(DomainLength::SingleCharacter)
    } else if n == 4 {
        Ok(DomainLength::VeryShort)
    } else if n == 5 {
        Ok(DomainLength::Short)
    } else {
        Ok(DomainLength::Normal)
    }
}

/// Classifies a domain: lowercases it, requires the `.o` suffix and buckets
/// the name before it by its number of characters.
pub fn classify(domain: &str) -> (r: Result<DomainLength, DomainError>)
    ensures
        r == classify_spec(lower_of(domain@)),
{
    let lower = lowercase(domain);
    classify_lowercase(lower.as_str())
}

/// A domain with the suffix and a non-empty name of `n` characters is
/// `SingleCharacter` exactly when `n` is 1, `VeryShort` exactly when `n` is
/// 2, `Short` exactly when `n` is 3 and `Normal` exactly when `n` exceeds 3.
pub proof fn lemma_bucket_by_name_length(lower: Seq<char>)
    requires
        has_suffix(lower),
        lower.len() >= 3,
    ensures
        ({
            let n = lower.len() - 2;
            &&& (classify_spec(lower) == Ok::<DomainLength, DomainError>(DomainLength::SingleCharacter)) <==> n == 1
            &&& (classify_spec(lower) == Ok::<DomainLength, DomainError>(DomainLength::VeryShort)) <==> n == 2
            &&& (classify_spec(lower) == Ok::<DomainLength, DomainError>(DomainLength::Short)) <==> n == 3
            &&& (classify_spec(lower) == Ok::<DomainLength, DomainError>(DomainLength::Normal)) <==> n > 3
        }),
{
}

/// Case does not matter: a domain and its lowercase form get the same
/// classification, for every domain whose lowercase form is left unchanged by
/// lowercasing it again.
pub proof fn lemma_classify_ignores_case(d: Seq<char>)
    requires
        lower_of(lower_of(d)) == lower_of(d),
    ensures
        classify_spec(lower_of(lower_of(d))) == classify_spec(lower_of(d)),
{
}

/// No string is accepted without the suffix, nor when it is shorter than a
/// one-character name followed by the suffix.
pub proof fn lemma_rejects_malformed(lower: Seq<char>)
    ensures
        !has_suffix(lower) ==> classify_spec(lower) == Err::<DomainLength, DomainError>(DomainError::MissingSuffix),
        lower.len() < 3 ==> classify_spec(lower) is Err,
{
}

} // verus!
