//! A parsed configuration file: its table of settings and the name of
//! the file it was read from.

use vstd::prelude::*;

verus! {

/// `toml`'s generic ordered map, held as an opaque value.
#[verifier::external_type_specification]
#[verifier::external_body]
#[verifier::reject_recursive_types(K)]
#[verifier::reject_recursive_types(V)]
pub struct ExTomlMap<K, V>(toml::map::Map<K, V>);

/// `toml`'s value type, held as an opaque value.
#[verifier::external_type_specification]
#[verifier::external_body]
pub struct ExTomlValue(toml::Value);

/// A parsed configuration: the table of settings and the name of its
/// source file.
pub struct Toml {
    pub table: toml::Table,
    file_name: String,
}

impl Toml {
    /// The name of the file the table was read from.
    pub closed spec fn spec_file_name(&self) -> Seq<char> {
        self.file_name@
    }

    /// Wraps an already-parsed table with the name of its source file.
    pub fn new(table: toml::Table, file_name: String) -> (t: Toml)
        ensures
            t.spec_file_name() == file_name@,
    {
        Toml { table, file_name }
    }

    /// The name of the file the table was read from.
    pub fn get_file_name(&self) -> (r: &String)
        ensures
            r@ == self.spec_file_name(),
    {
        &self.file_name
    }
}

} // verus!
