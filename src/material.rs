//! The material extractor: a name and up to three texture paths.
use vstd::prelude::*;

verus! {

/// The texture semantics that the extractor reads.
#[derive(Clone, Copy, Debug, PartialEq, Eq, Structural)]
pub enum TextureType {
    Diffuse,
    Normals,
    Specular,
    Other,
}

/// The value of a generic material property; only text values are read.
#[derive(Clone, Debug)]
pub enum PropertyTypeInfo {
    Buffer,
    IntegerArray,
    FloatArray,
    String(String),
}

/// One entry of a material's generic property list.
#[derive(Clone, Debug)]
pub struct MaterialProperty {
    pub key: String,
    pub semantic: TextureType,
    pub data: PropertyTypeInfo,
}

/// One entry of a material's typed texture-slot map.
#[derive(Clone, Debug)]
pub struct TextureSlot {
    pub kind: TextureType,
    pub filename: String,
}

/// A material as the importer hands it over. The texture slots are a map:
/// at most one slot of each kind is expected, and the first one is used.
#[derive(Clone, Debug)]
pub struct ImportedMaterial {
    pub properties: Vec<MaterialProperty>,
    pub textures: Vec<TextureSlot>,
}

/// The serialized form of a material; an empty path means "absent".
#[derive(Clone, Debug)]
pub struct SerializedMaterial {
    pub name: String,
    pub diffuse_texture_path: String,
    pub normals_texture_path: String,
    pub specular_texture_path: String,
}

pub open spec fn name_key() -> Seq<char> {
    "$mat.name"@
}

pub open spec fn file_key() -> Seq<char> {
    "$tex.file"@
}

/// The text of the last property with this key (and, where given, this
/// semantic) among the first `k`, if any.
pub open spec fn last_text(props: Seq<MaterialProperty>, key: Seq<char>, sem: Option<TextureType>, k: int) -> Option<Seq<char>>
    decreases k,
{
    if k <= 0 {
        None
    } else {
        let p = props[k - 1];
        if p.key@ == key && (sem is None || sem == Some(p.semantic)) && p.data is String {
            Some(p.data->String_0@)
        } else {
            last_text(props, key, sem, k - 1)
        }
    }
}

/// The file name of the first texture slot of this kind, if any.
pub open spec fn slot_file(slots: Seq<TextureSlot>, kind: TextureType, k: int) -> Option<Seq<char>>
    decreases slots.len() - k,
{
    if k < 0 || k >= slots.len() {
        None
    } else if slots[k].kind == kind {
        Some(slots[k].filename@)
    } else {
        slot_file(slots, kind, k + 1)
    }
}

pub open spec fn or_empty(o: Option<Seq<char>>) -> Seq<char> {
    match o {
        Some(s) => s,
        None => Seq::empty(),
    }
}

/// A texture path: the typed slot map wins over the property list.
pub open spec fn texture_path(m: ImportedMaterial, kind: TextureType, from_props: Option<Seq<char>>) -> Seq<char> {
    match slot_file(m.textures@, kind, 0) {
        Some(f) => f,
        None => or_empty(from_props),
    }
}

/// What extraction gives for `m`.
pub open spec fn extracted_from(r: SerializedMaterial, m: ImportedMaterial) -> bool {
    let props = m.properties@;
    let n = props.len() as int;
    &&& r.name@ == or_empty(last_text(props, name_key(), None, n))
    &&& r.diffuse_texture_path@ == texture_path(
        m,
        TextureType::Diffuse,
        last_text(props, file_key(), Some(TextureType::Diffuse), n),
    )
    &&& r.normals_texture_path@ == texture_path(
        m,
        TextureType::Normals,
        last_text(props, file_key(), Some(TextureType::Normals), n),
    )
    &&& r.specular_texture_path@ == texture_path(m, TextureType::Specular, None)
}

fn find_slot(slots: &Vec<TextureSlot>, kind: TextureType) -> (r: Option<String>)
    ensures
        r is Some <==> slot_file(slots@, kind, 0) is Some,
        r is Some ==> slot_file(slots@, kind, 0) == Some(r->Some_0@),
{
    let mut i: usize = 0;
    while i < slots.len()
        invariant
            i <= slots@.len(),
            slot_file(slots@, kind, 0) == slot_file(slots@, kind, i as int),
        decreases slots@.len() - i,
    {
        if slots[i].kind == kind {
            return Some(slots[i].filename.clone());
        }
        i = i + 1;
    }
    None
}

/// Reads a material's name and its diffuse, normal and specular texture paths.
/// The property list is scanned in order (a later match replaces an earlier
/// one); then each texture slot present in the typed map overwrites its path.
pub fn extract_material(m: &ImportedMaterial) -> (r: SerializedMaterial)
    ensures
        extracted_from(r, *m),
{
    let name_key_s: String = "$mat.name".to_owned();
    let file_key_s: String = "$tex.file".to_owned();
    let mut name: Option<String> = None;
    let mut diffuse: Option<String> = None;
    let mut normals: Option<String> = None;
    let ghost props = m.properties@;
    let mut i: usize = 0;
    while i < m.properties.len()
        invariant
            i <= props.len(),
            props == m.properties@,
            name_key_s@ == name_key(),
            file_key_s@ == file_key(),
            name is Some <==> last_text(props, name_key(), None, i as int) is Some,
            name is Some ==> last_text(props, name_key(), None, i as int) == Some(name->Some_0@),
            diffuse is Some <==> last_text(props, file_key(), Some(TextureType::Diffuse), i as int) is Some,
            diffuse is Some ==> last_text(props, file_key(), Some(TextureType::Diffuse), i as int) == Some(diffuse->Some_0@),
            normals is Some <==> last_text(props, file_key(), Some(TextureType::Normals), i as int) is Some,
            normals is Some ==> last_text(props, file_key(), Some(TextureType::Normals), i as int) == Some(normals->Some_0@),
        decreases props.len() - i,
    {
        let p = &m.properties[i];
        match &p.data {
            PropertyTypeInfo::String(val) => {
                if p.key == name_key_s {
                    name = Some(val.clone());
                }
                if p.key == file_key_s && p.semantic == TextureType::Diffuse {
                    diffuse = Some(val.clone());
                }
                if p.key == file_key_s && p.semantic == TextureType::Normals {
                    normals = Some(val.clone());
                }
            },
            _ => {},
        }
        i = i + 1;
    }
    match find_slot(&m.textures, TextureType::Diffuse) {
        Some(f) => { diffuse = Some(f); },
        None => {},
    }
    match find_slot(&m.textures, TextureType::Normals) {
        Some(f) => { normals = Some(f); },
        None => {},
    }
    let specular = find_slot(&m.textures, TextureType::Specular);
    SerializedMaterial {
        name: unwrap_or_empty(name),
        diffuse_texture_path: unwrap_or_empty(diffuse),
        normals_texture_path: unwrap_or_empty(normals),
        specular_texture_path: unwrap_or_empty(specular),
    }
}

fn unwrap_or_empty(o: Option<String>) -> (r: String)
    ensures
        r@ == (match o {
            Some(s) => s@,
            None => Seq::empty(),
        }),
{
    match o {
        Some(s) => s,
        None => String::new(),
    }
}

} // verus!
