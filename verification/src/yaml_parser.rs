//! A thin adapter over the YAML serializer for plain values.

use vstd::prelude::*;

verus! {

/// A card record, as the YAML card files lay it out.
#[derive(Clone, Debug)]
pub struct Card {
    pub name: String,
    pub cmc: u8,
    pub mana: String,
    pub txt: String,
}

/// The YAML serializer's error type, carried through opaquely.
#[verifier::external_type_specification]
#[verifier::external_body]
pub struct ExYamlError(serde_yaml::Error);

/// The string a YAML document parses to, where it parses to one at all.
pub uninterp spec fn yaml_string_of(s: Seq<char>) -> Option<Seq<char>>;

/// The YAML document that a number serializes to.
pub uninterp spec fn yaml_of_u32(n: u32) -> Seq<char>;

/// Relies on serde_yaml::from_str: parsing a YAML document into a string
/// is a function of the document alone; it succeeds exactly when the
/// document is one string value.
#[verifier::external_body]
pub fn from_str(s: &str) -> (r: Result<String, serde_yaml::Error>)
    ensures
        r is Ok <==> yaml_string_of(s@) is Some,
        r is Ok ==> r->Ok_0@ == yaml_string_of(s@)->Some_0,
{
    serde_yaml::from_str::<String>(s)
}

/// Relies on serde_yaml::to_string: serializing a plain number is a
/// function of the number alone and cannot fail.
#[verifier::external_body]
pub fn to_string(n: &u32) -> (r: Result<String, serde_yaml::Error>)
    ensures
        r is Ok,
        r is Ok ==> r->Ok_0@ == yaml_of_u32(*n),
{
    serde_yaml::to_string(n)
}

} // verus!
