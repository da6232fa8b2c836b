//! The debug entities that mirror colliders and rigid bodies are told apart
//! by a name suffix.
use vstd::prelude::*;
use crate::utils::text::{concat, concat3};

verus! {

/// The suffix of a debug entity's name.
pub open spec fn debug_suffix() -> Seq<char> {
    "_physics_debug"@
}

/// `name` ends with `suffix`.
pub open spec fn ends_with(name: Seq<char>, suffix: Seq<char>) -> bool {
    suffix.len() <= name.len() && name.skip(name.len() - suffix.len()) == suffix
}

/// The name of the debug entity that mirrors an entity called `name`.
pub fn debug_name(name: &str) -> (r: String)
    ensures
        r@ == name@ + debug_suffix(),
{
    concat(name, "_physics_debug")
}

/// Whether `name` is a debug entity's name.
pub fn is_debug_name(name: &str) -> (r: bool)
    ensures
        r == ends_with(name@, debug_suffix()),
{
    let suffix = "_physics_debug";
    proof {
        reveal_strlit("_physics_debug");
    }
    assert(debug_suffix() == suffix@);
    let n = name.unicode_len();
    let k = suffix.unicode_len();
    if k > n {
        return false;
    }
    let start = n - k;
    let mut i: usize = 0;
    while i < k
        invariant
            debug_suffix() == suffix@,
            n == name@.len(),
            k == suffix@.len(),
            start == n - k,
            i <= k,
            forall|j: int| 0 <= j < i ==> name@[start + j] == suffix@[j],
        decreases k - i,
    {
        if name.get_char(start + i) != suffix.get_char(i) {
            assert(name@.skip(start as int)[i as int] != suffix@[i as int]);
            assert(name@.skip(start as int) != suffix@);
            return false;
        }
        i = i + 1;
    }
    assert(name@.skip(start as int) =~= suffix@);
    true
}

/// An entity left over from an earlier run: named like a debug entity but
/// not one of the debug entities currently in use.
pub fn is_orphan_debug(entity: u128, mirrors: &Vec<u128>, name: Option<&str>) -> (r: bool)
    ensures
        r == (!mirrors@.contains(entity) && match name {
            Some(n) => ends_with(n@, debug_suffix()),
            None => false,
        }),
{
    let mut i: usize = 0;
    while i < mirrors.len()
        invariant
            i <= mirrors@.len(),
            forall|j: int| 0 <= j < i ==> mirrors@[j] != entity,
        decreases mirrors@.len() - i,
    {
        if mirrors[i] == entity {
            return false;
        }
        i = i + 1;
    }
    match name {
        Some(n) => is_debug_name(n),
        None => false,
    }
}

/// A model name that stands for a bundled primitive shape: not empty, with
/// no path separator and no extension.
pub open spec fn primitive_model(model: Seq<char>) -> bool {
    model.len() > 0 && !model.contains('/') && !model.contains('.')
}

/// Whether a model name stands for a bundled primitive shape.
pub fn is_primitive(model: &str) -> (r: bool)
    ensures
        r == primitive_model(model@),
{
    let n = model.unicode_len();
    if n == 0 {
        return false;
    }
    let mut i: usize = 0;
    while i < n
        invariant
            n == model@.len(),
            i <= n,
            forall|j: int| 0 <= j < i ==> model@[j] != '/' && model@[j] != '.',
        decreases n - i,
    {
        let c = model.get_char(i);
        if c == '/' || c == '.' {
            return false;
        }
        i = i + 1;
    }
    true
}

/// The model a debug entity renders for a collider's model: a primitive
/// name maps to its bundled file, anything else is already a path.
pub fn debug_model_path(model: &str) -> (r: String)
    ensures
        r@ == (if primitive_model(model@) {
            "./assets/models/"@ + model@ + ".obj"@
        } else {
            model@
        }),
{
    if is_primitive(model) {
        concat3("./assets/models/", model, ".obj")
    } else {
        String::from_str(model)
    }
}

/// The name given to a debug entity is always recognised as a debug name,
/// and a name is one exactly when it is some name with the suffix added.
pub proof fn law_debug_names_recognised(name: Seq<char>, other: Seq<char>)
    ensures
        debug_suffix() == "_physics_debug"@,
        ends_with(name + debug_suffix(), debug_suffix()),
        ends_with(other, "_physics_debug"@) ==> other == other.take(other.len() - "_physics_debug"@.len())
            + "_physics_debug"@,
        other.len() < "_physics_debug"@.len() ==> !ends_with(other, "_physics_debug"@),
{
    let full = name + "_physics_debug"@;
    assert(full.skip(full.len() - "_physics_debug"@.len()) =~= "_physics_debug"@);
    if ends_with(other, "_physics_debug"@) {
        let k = other.len() - "_physics_debug"@.len();
        assert(other =~= other.take(k) + other.skip(k));
    }
}

} // verus!
