//! Reading a material file: which shader it names and which uniform each of
//! its other keys becomes. The JSON text is parsed by serde_json; the
//! numbers themselves are read where they are used.
use vstd::prelude::*;
use crate::utils::text::same_text;
use serde_json::Value;

verus! {

/// What a JSON value is, as far as a material reads it: a text, a number
/// (with what `as_i64`, `as_u64` and `as_f64` give of it, the last only as
/// whether there is one), an array (for each element, whether it reads as a
/// number), or something else.
pub enum JsonKind {
    Text(String),
    Number { as_i64: Option<i64>, as_u64: Option<u64>, has_f64: bool },
    Array(Vec<bool>),
    Other,
}

/// A parsed material file: an object with its members in the order the
/// parser walks them, or some other JSON value.
pub enum MaterialDoc {
    Object(Vec<(String, JsonKind)>),
    NotObject,
}

/// The uniform a material member becomes: an integer, a float, a vector of
/// 2 to 4 floats, or nothing (the member is reported and skipped).
#[derive(Clone, Copy, Debug, PartialEq, Eq, Structural)]
pub enum MaterialEntry {
    Int(i32),
    Float,
    Vector(usize),
    Invalid,
}

/// Why a material file gives no material.
#[derive(Clone, Copy, Debug, PartialEq, Eq, Structural)]
pub enum MaterialRejection {
    NotJson,
    NotObject,
    NoShader,
}

/// A material read from its file: the shader and, for every other member in
/// order, what it becomes.
pub struct MaterialPlan {
    pub shader: String,
    pub entries: Vec<(String, MaterialEntry)>,
}

/// What `serde_json` parses a material text into, as a `MaterialDoc`;
/// `None` when the text is not JSON.
pub uninterp spec fn material_doc_of(text: Seq<char>) -> Option<MaterialDoc>;

/// The key that names the shader.
pub open spec fn shader_key() -> Seq<char> {
    "shader"@
}

/// What a member's value becomes: a number that fits in an `i32` (as read
/// by `as_i64`, else by `as_u64`) an integer, another number a float, an
/// array of 2 to 4 numbers a vector, anything else nothing.
pub open spec fn entry_of(value: JsonKind) -> MaterialEntry {
    match value {
        JsonKind::Number { as_i64, as_u64, has_f64 } => if as_i64 matches Some(v) && i32::MIN <= v
            <= i32::MAX {
            MaterialEntry::Int(as_i64->0 as i32)
        } else if as_u64 matches Some(v) && v <= i32::MAX {
            MaterialEntry::Int(as_u64->0 as i32)
        } else if has_f64 {
            MaterialEntry::Float
        } else {
            MaterialEntry::Invalid
        },
        JsonKind::Array(xs) => if 2 <= xs@.len() <= 4 && forall|i: int| 0 <= i < xs@.len() ==> xs@[i] {
            MaterialEntry::Vector(xs@.len() as usize)
        } else {
            MaterialEntry::Invalid
        },
        _ => MaterialEntry::Invalid,
    }
}

/// Where the shader key first occurs among the members.
pub open spec fn shader_position(members: Seq<(String, JsonKind)>) -> Option<int>
    decreases members.len(),
{
    if members.len() == 0 {
        None
    } else {
        match shader_position(members.drop_last()) {
            Some(i) => Some(i),
            None => if members.last().0@ == shader_key() {
                Some(members.len() - 1)
            } else {
                None
            },
        }
    }
}

/// The shader a material names: the text under its shader key.
pub open spec fn shader_of(members: Seq<(String, JsonKind)>) -> Option<Seq<char>> {
    match shader_position(members) {
        Some(i) => match members[i].1 {
            JsonKind::Text(s) => Some(s@),
            _ => None,
        },
        None => None,
    }
}

/// Every member but the shader, in order, with what it becomes.
pub open spec fn planned_entries(members: Seq<(String, JsonKind)>) -> Seq<(Seq<char>, MaterialEntry)>
    decreases members.len(),
{
    if members.len() == 0 {
        Seq::empty()
    } else {
        let rest = planned_entries(members.drop_last());
        if members.last().0@ == shader_key() {
            rest
        } else {
            rest.push((members.last().0@, entry_of(members.last().1)))
        }
    }
}

/// The entries of a plan, keys by their text.
pub open spec fn entries_view(entries: Seq<(String, MaterialEntry)>) -> Seq<(Seq<char>, MaterialEntry)> {
    entries.map_values(|e: (String, MaterialEntry)| (e.0@, e.1))
}

/// `r` is the material read from `doc`: rejected when the text was not JSON,
/// not an object, or names no shader; else the shader and the entries.
pub open spec fn material_planned(doc: Option<MaterialDoc>, r: Result<MaterialPlan, MaterialRejection>) -> bool {
    match doc {
        None => r == Err::<MaterialPlan, MaterialRejection>(MaterialRejection::NotJson),
        Some(MaterialDoc::NotObject) => r == Err::<MaterialPlan, MaterialRejection>(
            MaterialRejection::NotObject,
        ),
        Some(MaterialDoc::Object(members)) => match shader_of(members@) {
            None => r == Err::<MaterialPlan, MaterialRejection>(MaterialRejection::NoShader),
            Some(s) => r matches Ok(p) && p.shader@ == s && entries_view(p.entries@) == planned_entries(
                members@,
            ),
        },
    }
}

/// Calls `serde_json::from_str` into a `Value` and describes what came out:
/// `None` for a text that is not JSON, each member of an object with its
/// kind, or that it is no object.
#[verifier::external_body]
fn parse_material_doc(text: &str) -> (r: Option<MaterialDoc>)
    ensures
        r == material_doc_of(text@),
{
    match serde_json::from_str::<Value>(text) {
        Err(_) => None,
        Ok(Value::Object(map)) => Some(MaterialDoc::Object(map.into_iter().map(|(k, v)| (k, match v {
            Value::String(s) => JsonKind::Text(s),
            Value::Number(n) => JsonKind::Number { as_i64: n.as_i64(), as_u64: n.as_u64(), has_f64: n.as_f64().is_some() },
            Value::Array(a) => JsonKind::Array(a.iter().map(|e| e.as_f64().is_some()).collect()),
            _ => JsonKind::Other,
        })).collect())),
        Ok(_) => Some(MaterialDoc::NotObject),
    }
}

/// What a member's value becomes.
pub fn material_entry(value: &JsonKind) -> (r: MaterialEntry)
    ensures
        r == entry_of(*value),
{
    match value {
        JsonKind::Number { as_i64, as_u64, has_f64 } => {
            if let Some(v) = as_i64 {
                if i32::MIN as i64 <= *v && *v <= i32::MAX as i64 {
                    return MaterialEntry::Int(*v as i32);
                }
            }
            if let Some(v) = as_u64 {
                if *v <= i32::MAX as u64 {
                    return MaterialEntry::Int(*v as i32);
                }
            }
            if *has_f64 {
                MaterialEntry::Float
            } else {
                MaterialEntry::Invalid
            }
        },
        JsonKind::Array(xs) => {
            let n = xs.len();
            if n < 2 || n > 4 {
                return MaterialEntry::Invalid;
            }
            let mut i: usize = 0;
            while i < n
                invariant
                    *value == JsonKind::Array(*xs),
                    n == xs@.len(),
                    2 <= n <= 4,
                    i <= n,
                    forall|j: int| 0 <= j < i ==> xs@[j],
                decreases n - i,
            {
                if !xs[i] {
                    assert(!xs@[i as int]);
                    return MaterialEntry::Invalid;
                }
                i = i + 1;
            }
            MaterialEntry::Vector(n)
        },
        _ => MaterialEntry::Invalid,
    }
}

/// The material a parsed file gives.
pub fn material_plan(doc: Option<MaterialDoc>) -> (r: Result<MaterialPlan, MaterialRejection>)
    ensures
        material_planned(doc, r),
{
    let members = match doc {
        None => return Err(MaterialRejection::NotJson),
        Some(MaterialDoc::NotObject) => return Err(MaterialRejection::NotObject),
        Some(MaterialDoc::Object(members)) => members,
    };
    let ghost ms = members@;
    let key = "shader";
    proof {
        reveal_strlit("shader");
    }
    assert(key@ == shader_key());
    let mut shader: Option<usize> = None;
    let mut entries: Vec<(String, MaterialEntry)> = Vec::new();
    let mut i: usize = 0;
    while i < members.len()
        invariant
            ms == members@,
            key@ == shader_key(),
            i <= ms.len(),
            shader == (match shader_position(ms.take(i as int)) {
                Some(j) => Some(j as usize),
                None => None::<usize>,
            }),
            match shader_position(ms.take(i as int)) {
                Some(j) => 0 <= j < i,
                None => true,
            },
            entries_view(entries@) == planned_entries(ms.take(i as int)),
        decreases ms.len() - i,
    {
        proof {
            assert(ms.take(i + 1).drop_last() =~= ms.take(i as int));
            assert(ms.take(i + 1).last() == ms[i as int]);
        }
        let is_shader = same_text(members[i].0.as_str(), key);
        if is_shader {
            if shader.is_none() {
                shader = Some(i);
            }
        } else {
            let e = material_entry(&members[i].1);
            let k = members[i].0.clone();
            let ghost before = entries@;
            entries.push((k, e));
            proof {
                assert(entries@ == before.push((k, e)));
                assert(entries_view(entries@) =~= entries_view(before).push((k@, e)));
            }
        }
        i = i + 1;
    }
    proof {
        assert(ms.take(ms.len() as int) =~= ms);
    }
    match shader {
        None => Err(MaterialRejection::NoShader),
        Some(j) => match &members[j].1 {
            JsonKind::Text(s) => Ok(MaterialPlan { shader: s.clone(), entries }),
            _ => Err(MaterialRejection::NoShader),
        },
    }
}

/// Reads a material file's text: parses it as JSON and plans the material.
pub fn plan_material(text: &str) -> (r: Result<MaterialPlan, MaterialRejection>)
    ensures
        material_planned(material_doc_of(text@), r),
{
    let doc = parse_material_doc(text);
    material_plan(doc)
}

/// An array member becomes a vector of as many floats as it has elements
/// exactly when it holds 2, 3 or 4 elements and every one is a number; any
/// other array is skipped.
pub proof fn law_array_members(xs: Vec<bool>)
    ensures
        (2 <= xs@.len() <= 4 && forall|i: int| 0 <= i < xs@.len() ==> xs@[i]) ==> entry_of(
            JsonKind::Array(xs),
        ) == MaterialEntry::Vector(xs@.len() as usize),
        (xs@.len() < 2 || xs@.len() > 4 || exists|i: int| 0 <= i < xs@.len() && !xs@[i]) ==> entry_of(
            JsonKind::Array(xs),
        ) == MaterialEntry::Invalid,
        entry_of(JsonKind::Array(xs)) matches MaterialEntry::Vector(n) ==> n == xs@.len(),
{
}

/// A number member becomes an `i32` uniform holding its value when its value
/// fits in an `i32`, read as a signed integer, else as an unsigned one; any other
/// number becomes a float; no number is skipped when it reads as a float.
pub proof fn law_number_members(as_i64: Option<i64>, as_u64: Option<u64>, has_f64: bool)
    ensures
        (as_i64 matches Some(v) && i32::MIN <= v <= i32::MAX) ==> entry_of(
            JsonKind::Number { as_i64, as_u64, has_f64 },
        ) == MaterialEntry::Int(as_i64->0 as i32),
        (!(as_i64 matches Some(v) && i32::MIN <= v <= i32::MAX) && (as_u64 matches Some(v) && v <= i32::MAX))
            ==> (entry_of(JsonKind::Number { as_i64, as_u64, has_f64 })
            matches MaterialEntry::Int(k) && k == as_u64->0),
        (!(as_i64 matches Some(v) && i32::MIN <= v <= i32::MAX) && !(as_u64 matches Some(v) && v <= i32::MAX)
            && has_f64) ==> entry_of(JsonKind::Number { as_i64, as_u64, has_f64 }) == MaterialEntry::Float,
        has_f64 ==> entry_of(JsonKind::Number { as_i64, as_u64, has_f64 }) != MaterialEntry::Invalid,
{
}

/// Every member not named `shader` gives one entry, in the order of the
/// members, under its own key and with what its value becomes; the shader
/// member gives none.
pub proof fn law_entries_follow_members(members: Seq<(String, JsonKind)>)
    ensures
        planned_entries(members) == members.filter(|m: (String, JsonKind)| m.0@ != "shader"@).map_values(
            |m: (String, JsonKind)| (m.0@, entry_of(m.1)),
        ),
    decreases members.len(),
{
    if members.len() > 0 {
        let init = members.drop_last();
        let last = members.last();
        law_entries_follow_members(init);
        reveal(Seq::filter);
        let before = init.filter(|m: (String, JsonKind)| m.0@ != "shader"@);
        let after = members.filter(|m: (String, JsonKind)| m.0@ != "shader"@);
        if last.0@ != "shader"@ {
            assert(after == before.push(last));
            assert(before.push(last).map_values(|m: (String, JsonKind)| (m.0@, entry_of(m.1))) =~= before.map_values(
                |m: (String, JsonKind)| (m.0@, entry_of(m.1)),
            ).push((last.0@, entry_of(last.1))));
        } else {
            assert(after == before);
        }
    }
}

/// The shader a material names is the text of the first member named
/// `shader`: the position found holds that key and no member before it
/// does, and none is found exactly when no member has that key.
pub proof fn law_first_shader_member(members: Seq<(String, JsonKind)>)
    ensures
        shader_position(members) matches Some(i) ==> 0 <= i < members.len() && members[i].0@ == "shader"@
            && forall|j: int| 0 <= j < i ==> members[j].0@ != "shader"@,
        shader_position(members) is None <==> forall|j: int| 0 <= j < members.len() ==> members[j].0@
            != "shader"@,
        shader_position(members) matches Some(i) ==> shader_of(members) == (match members[i].1 {
            JsonKind::Text(s) => Some(s@),
            _ => None::<Seq<char>>,
        }),
    decreases members.len(),
{
    if members.len() > 0 {
        let init = members.drop_last();
        law_first_shader_member(init);
        assert forall|j: int| 0 <= j < init.len() implies init[j] == members[j] by {}
    }
}

} // verus!
