//! The shader registry: a closed table from names to shader tags.
//!
//! A new shader is one more variant of `ShaderKind` and one more row of the
//! table; the scheduler and the rasterizer never look at the tag.

use vstd::prelude::*;
use vstd::string::StringExecFns;

verus! {

/// The shaders that can be selected by name.
#[derive(Clone, Copy, Debug, PartialEq, Eq, Structural)]
pub enum ShaderKind {
    /// The raymarched field.
    Cyberspace,
    /// The plasma field.
    Plasma,
    /// A two-color horizontal blend that fades over time.
    Gradient,
}

/// Why a lookup failed.
#[derive(Clone, Copy, Debug, PartialEq, Eq, Structural)]
pub enum RegistryError {
    /// No shader is registered under the name.
    NotFound,
}

/// The name under which `kind` is registered.
pub open spec fn name_of(kind: ShaderKind) -> Seq<char> {
    match kind {
        ShaderKind::Cyberspace => "cyberspace"@,
        ShaderKind::Plasma => "plasma"@,
        ShaderKind::Gradient => "gradient"@,
    }
}

/// The table itself: the shader registered under `name`, if there is one.
pub open spec fn lookup(name: Seq<char>) -> Option<ShaderKind> {
    if name == name_of(ShaderKind::Cyberspace) {
        Some(ShaderKind::Cyberspace)
    } else if name == name_of(ShaderKind::Plasma) {
        Some(ShaderKind::Plasma)
    } else if name == name_of(ShaderKind::Gradient) {
        Some(ShaderKind::Gradient)
    } else {
        None
    }
}

/// Whether two texts are the same, character for character.
pub fn same_text(a: &str, b: &str) -> (same: bool)
    ensures
        same == (a@ == b@),
{
    String::from_str(a) == String::from_str(b)
}

impl ShaderKind {
    /// The name under which this shader is registered.
    pub fn name(self) -> (n: &'static str)
        ensures
            n@ == name_of(self),
    {
        match self {
            ShaderKind::Cyberspace => "cyberspace",
            ShaderKind::Plasma => "plasma",
            ShaderKind::Gradient => "gradient",
        }
    }
}

/// Looks `name` up in the registry: the shader registered under exactly
/// that name, or `NotFound`.
pub fn resolve(name: &str) -> (found: Result<ShaderKind, RegistryError>)
    ensures
        found == match lookup(name@) {
            Some(kind) => Ok::<ShaderKind, RegistryError>(kind),
            None => Err::<ShaderKind, RegistryError>(RegistryError::NotFound),
        },
{
    if same_text(name, ShaderKind::Cyberspace.name()) {
        Ok(ShaderKind::Cyberspace)
    } else if same_text(name, ShaderKind::Plasma.name()) {
        Ok(ShaderKind::Plasma)
    } else if same_text(name, ShaderKind::Gradient.name()) {
        Ok(ShaderKind::Gradient)
    } else {
        Err(RegistryError::NotFound)
    }
}

/// Every registered shader is found under its own name: no two rows of the
/// table share a name.
pub proof fn lemma_lookup_own_name(kind: ShaderKind)
    ensures
        lookup(name_of(kind)) == Some(kind),
{
    reveal_strlit("cyberspace");
    reveal_strlit("plasma");
    reveal_strlit("gradient");
    assert("cyberspace"@.len() == 10);
    assert("plasma"@.len() == 6);
    assert("gradient"@.len() == 8);
}

/// A name that resolves is the name of the shader it resolves to.
pub proof fn lemma_lookup_only_own_name(name: Seq<char>, kind: ShaderKind)
    requires
        lookup(name) == Some(kind),
    ensures
        name == name_of(kind),
{
}

} // verus!
