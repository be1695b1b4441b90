//! MessagePack encoding of the serialized model: every record is its fields in
//! order, every variable-size field is length-prefixed.
use vstd::prelude::*;
use vstd::utf8::encode_utf8;
use msgpacker::Packable;
use crate::transform::RawMatrix;
use crate::mesh::SerializedMesh;
use crate::material::SerializedMaterial;
use crate::model::SerializedModel;

verus! {

pub open spec fn be2(v: int) -> Seq<u8> {
    seq![(v / 0x100) as u8, (v % 0x100) as u8]
}

pub open spec fn be4(v: int) -> Seq<u8> {
    seq![(v / 0x100_0000) as u8, ((v / 0x1_0000) % 0x100) as u8, ((v / 0x100) % 0x100) as u8, (v % 0x100) as u8]
}

/// The shortest unsigned integer encoding of `v`.
pub open spec fn uint_bytes(v: u32) -> Seq<u8> {
    if v <= 0x7f {
        seq![v as u8]
    } else if v <= 0xff {
        seq![0xccu8, v as u8]
    } else if v <= 0xffff {
        seq![0xcdu8] + be2(v as int)
    } else {
        seq![0xceu8] + be4(v as int)
    }
}

/// The `float 32` encoding of the value with bit pattern `bits`.
pub open spec fn float_bytes(bits: u32) -> Seq<u8> {
    seq![0xcau8] + be4(bits as int)
}

/// The header of a string of `n` UTF-8 bytes.
pub open spec fn str_header(n: nat) -> Seq<u8> {
    if n <= 31 {
        seq![(0xa0 + n) as u8]
    } else if n <= 0xff {
        seq![0xd9u8, n as u8]
    } else if n <= 0xffff {
        seq![0xdau8] + be2(n as int)
    } else {
        seq![0xdbu8] + be4(n as int)
    }
}

/// The header of an array of `n` items.
pub open spec fn array_header(n: nat) -> Seq<u8> {
    if n <= 15 {
        seq![(0x90 + n) as u8]
    } else if n <= 0xffff {
        seq![0xdcu8] + be2(n as int)
    } else {
        seq![0xddu8] + be4(n as int)
    }
}

pub open spec fn string_bytes(s: Seq<char>) -> Seq<u8> {
    str_header(encode_utf8(s).len()) + encode_utf8(s)
}

/// The encodings of the items of `s`, one after the other.
pub open spec fn concat_map<T>(s: Seq<T>, f: spec_fn(T) -> Seq<u8>) -> Seq<u8>
    decreases s.len(),
{
    if s.len() == 0 {
        Seq::empty()
    } else {
        concat_map(s.drop_last(), f) + f(s.last())
    }
}

/// A length-prefixed list.
pub open spec fn list_bytes<T>(s: Seq<T>, f: spec_fn(T) -> Seq<u8>) -> Seq<u8> {
    array_header(s.len()) + concat_map(s, f)
}

pub open spec fn floats(a: Seq<u32>) -> Seq<u8> {
    concat_map(a, |b: u32| float_bytes(b))
}

pub open spec fn uints(a: Seq<u32>) -> Seq<u8> {
    concat_map(a, |v: u32| uint_bytes(v))
}

pub open spec fn matrix_bytes(m: RawMatrix) -> Seq<u8> {
    concat_map(m@, |c: [u32; 4]| floats(c@))
}

pub open spec fn mesh_bytes(m: SerializedMesh) -> Seq<u8> {
    list_bytes(m.positions@, |a: [u32; 3]| floats(a@))
        + list_bytes(m.normals@, |a: [u32; 3]| floats(a@))
        + list_bytes(m.uvs@, |a: [u32; 2]| floats(a@))
        + list_bytes(m.indices@, |v: u32| uint_bytes(v))
        + uint_bytes(m.material_index)
        + floats(m.min_extents@)
        + floats(m.max_extents@)
        + floats(m.dimensions@)
        + floats(m.scale@)
        + floats(m.rotation@)
        + floats(m.translation@)
        + list_bytes(m.bone_indices@, |a: [u32; 4]| uints(a@))
        + list_bytes(m.bone_weights@, |a: [u32; 4]| floats(a@))
}

pub open spec fn material_bytes(m: SerializedMaterial) -> Seq<u8> {
    string_bytes(m.name@) + string_bytes(m.diffuse_texture_path@) + string_bytes(m.normals_texture_path@)
        + string_bytes(m.specular_texture_path@)
}

/// The whole asset.
pub open spec fn model_bytes(m: SerializedModel) -> Seq<u8> {
    list_bytes(m.meshes@, |x: SerializedMesh| mesh_bytes(x))
        + list_bytes(m.materials@, |x: SerializedMaterial| material_bytes(x))
        + list_bytes(m.bone_names@, |s: String| string_bytes(s@))
        + list_bytes(m.inverse_bind_matrices@, |x: RawMatrix| matrix_bytes(x))
}

pub open spec fn fits(n: nat) -> bool {
    n <= u32::MAX
}

pub open spec fn string_fits(s: String) -> bool {
    fits(encode_utf8(s@).len())
}

pub open spec fn mesh_fits(m: SerializedMesh) -> bool {
    &&& fits(m.positions@.len())
    &&& fits(m.normals@.len())
    &&& fits(m.uvs@.len())
    &&& fits(m.indices@.len())
    &&& fits(m.bone_indices@.len())
    &&& fits(m.bone_weights@.len())
}

pub open spec fn material_fits(m: SerializedMaterial) -> bool {
    &&& string_fits(m.name)
    &&& string_fits(m.diffuse_texture_path)
    &&& string_fits(m.normals_texture_path)
    &&& string_fits(m.specular_texture_path)
}

/// Every length in the model fits the format's 32-bit length prefixes.
pub open spec fn encodable(m: SerializedModel) -> bool {
    &&& fits(m.meshes@.len())
    &&& fits(m.materials@.len())
    &&& fits(m.bone_names@.len())
    &&& fits(m.inverse_bind_matrices@.len())
    &&& forall|i: int| 0 <= i < m.meshes@.len() ==> mesh_fits(#[trigger] m.meshes@[i])
    &&& forall|i: int| 0 <= i < m.materials@.len() ==> material_fits(#[trigger] m.materials@[i])
    &&& forall|i: int| 0 <= i < m.bone_names@.len() ==> string_fits(#[trigger] m.bone_names@[i])
}

pub proof fn lemma_concat_map_push<T>(s: Seq<T>, x: T, f: spec_fn(T) -> Seq<u8>)
    ensures
        concat_map(s.push(x), f) == concat_map(s, f) + f(x),
{
    assert(s.push(x).drop_last() =~= s);
}

/// Relies on msgpacker's `Packable for u32`: the shortest of positive fixint,
/// `uint 8`, `uint 16` and `uint 32`, appended to the buffer.
#[verifier::external_body]
fn put_uint(buf: &mut Vec<u8>, v: u32)
    ensures
        final(buf)@ == old(buf)@ + uint_bytes(v),
{
    v.pack(buf);
}

/// Relies on msgpacker's `Packable for String`: the shortest string header
/// for the UTF-8 length, then the bytes, appended to the buffer.
#[verifier::external_body]
fn put_str(buf: &mut Vec<u8>, s: &String)
    requires
        string_fits(*s),
    ensures
        final(buf)@ == old(buf)@ + string_bytes(s@),
{
    s.pack(buf);
}

/// Relies on msgpacker::pack_array: for items that pack to no bytes at all
/// (empty arrays), it appends the array header for their count alone.
#[verifier::external_body]
fn put_array_header(buf: &mut Vec<u8>, n: usize)
    requires
        fits(n as nat),
    ensures
        final(buf)@ == old(buf)@ + array_header(n as nat),
{
    msgpacker::pack_array(buf, &vec![[0u8; 0]; n]);
}

/// Appends the `float 32` encoding of a bit pattern: the marker, then the
/// four bytes, most significant first.
pub fn put_float(buf: &mut Vec<u8>, bits: u32)
    ensures
        final(buf)@ == old(buf)@ + float_bytes(bits),
{
    buf.push(0xca);
    buf.push((bits / 0x100_0000) as u8);
    buf.push(((bits / 0x1_0000) % 0x100) as u8);
    buf.push(((bits / 0x100) % 0x100) as u8);
    buf.push((bits % 0x100) as u8);
    assert(buf@ =~= old(buf)@ + float_bytes(bits));
}

fn put_floats(buf: &mut Vec<u8>, a: &[u32])
    ensures
        final(buf)@ == old(buf)@ + floats(a@),
{
    let ghost start = buf@;
    let mut i: usize = 0;
    while i < a.len()
        invariant
            i <= a@.len(),
            buf@ == start + floats(a@.take(i as int)),
        decreases a@.len() - i,
    {
        put_float(buf, a[i]);
        proof {
            assert(a@.take(i + 1) =~= a@.take(i as int).push(a@[i as int]));
            lemma_concat_map_push(a@.take(i as int), a@[i as int], |b: u32| float_bytes(b));
            assert(buf@ =~= start + floats(a@.take(i + 1)));
        }
        i = i + 1;
    }
    assert(a@.take(i as int) =~= a@);
}

fn put_uints(buf: &mut Vec<u8>, a: &[u32])
    ensures
        final(buf)@ == old(buf)@ + uints(a@),
{
    let ghost start = buf@;
    let mut i: usize = 0;
    while i < a.len()
        invariant
            i <= a@.len(),
            buf@ == start + uints(a@.take(i as int)),
        decreases a@.len() - i,
    {
        put_uint(buf, a[i]);
        proof {
            assert(a@.take(i + 1) =~= a@.take(i as int).push(a@[i as int]));
            lemma_concat_map_push(a@.take(i as int), a@[i as int], |v: u32| uint_bytes(v));
            assert(buf@ =~= start + uints(a@.take(i + 1)));
        }
        i = i + 1;
    }
    assert(a@.take(i as int) =~= a@);
}

fn put_float_arrays<const N: usize>(buf: &mut Vec<u8>, v: &Vec<[u32; N]>)
    requires
        fits(v@.len()),
    ensures
        final(buf)@ == old(buf)@ + list_bytes(v@, |a: [u32; N]| floats(a@)),
{
    let ghost start = buf@;
    put_array_header(buf, v.len());
    let ghost head = buf@;
    let mut i: usize = 0;
    while i < v.len()
        invariant
            i <= v@.len(),
            head == start + array_header(v@.len()),
            buf@ == head + concat_map(v@.take(i as int), |a: [u32; N]| floats(a@)),
        decreases v@.len() - i,
    {
        let a: [u32; N] = v[i];
        put_floats(buf, &a);
        proof {
            assert(v@.take(i + 1) =~= v@.take(i as int).push(a));
            lemma_concat_map_push(v@.take(i as int), a, |a: [u32; N]| floats(a@));
            assert(buf@ =~= head + concat_map(v@.take(i + 1), |a: [u32; N]| floats(a@)));
        }
        i = i + 1;
    }
    assert(v@.take(i as int) =~= v@);
    assert(buf@ =~= start + list_bytes(v@, |a: [u32; N]| floats(a@)));
}

fn put_uint_quads(buf: &mut Vec<u8>, v: &Vec<[u32; 4]>)
    requires
        fits(v@.len()),
    ensures
        final(buf)@ == old(buf)@ + list_bytes(v@, |a: [u32; 4]| uints(a@)),
{
    let ghost start = buf@;
    put_array_header(buf, v.len());
    let ghost head = buf@;
    let mut i: usize = 0;
    while i < v.len()
        invariant
            i <= v@.len(),
            head == start + array_header(v@.len()),
            buf@ == head + concat_map(v@.take(i as int), |a: [u32; 4]| uints(a@)),
        decreases v@.len() - i,
    {
        let a: [u32; 4] = v[i];
        put_uints(buf, &a);
        proof {
            assert(v@.take(i + 1) =~= v@.take(i as int).push(a));
            lemma_concat_map_push(v@.take(i as int), a, |a: [u32; 4]| uints(a@));
            assert(buf@ =~= head + concat_map(v@.take(i + 1), |a: [u32; 4]| uints(a@)));
        }
        i = i + 1;
    }
    assert(v@.take(i as int) =~= v@);
    assert(buf@ =~= start + list_bytes(v@, |a: [u32; 4]| uints(a@)));
}

fn put_uint_list(buf: &mut Vec<u8>, v: &Vec<u32>)
    requires
        fits(v@.len()),
    ensures
        final(buf)@ == old(buf)@ + list_bytes(v@, |x: u32| uint_bytes(x)),
{
    let ghost start = buf@;
    put_array_header(buf, v.len());
    put_uints(buf, v.as_slice());
    assert(buf@ =~= start + list_bytes(v@, |x: u32| uint_bytes(x)));
}

fn put_strings(buf: &mut Vec<u8>, v: &Vec<String>)
    requires
        fits(v@.len()),
        forall|i: int| 0 <= i < v@.len() ==> string_fits(#[trigger] v@[i]),
    ensures
        final(buf)@ == old(buf)@ + list_bytes(v@, |s: String| string_bytes(s@)),
{
    let ghost start = buf@;
    put_array_header(buf, v.len());
    let ghost head = buf@;
    let mut i: usize = 0;
    while i < v.len()
        invariant
            i <= v@.len(),
            forall|i: int| 0 <= i < v@.len() ==> string_fits(#[trigger] v@[i]),
            head == start + array_header(v@.len()),
            buf@ == head + concat_map(v@.take(i as int), |s: String| string_bytes(s@)),
        decreases v@.len() - i,
    {
        put_str(buf, &v[i]);
        proof {
            assert(v@.take(i + 1) =~= v@.take(i as int).push(v@[i as int]));
            lemma_concat_map_push(v@.take(i as int), v@[i as int], |s: String| string_bytes(s@));
            assert(buf@ =~= head + concat_map(v@.take(i + 1), |s: String| string_bytes(s@)));
        }
        i = i + 1;
    }
    assert(v@.take(i as int) =~= v@);
    assert(buf@ =~= start + list_bytes(v@, |s: String| string_bytes(s@)));
}

fn put_matrix(buf: &mut Vec<u8>, m: &RawMatrix)
    ensures
        final(buf)@ == old(buf)@ + matrix_bytes(*m),
{
    let ghost start = buf@;
    let mut c: usize = 0;
    while c < 4
        invariant
            c <= 4,
            buf@ == start + concat_map(m@.take(c as int), |col: [u32; 4]| floats(col@)),
        decreases 4 - c,
    {
        let col: [u32; 4] = m[c];
        put_floats(buf, &col);
        proof {
            assert(m@.take(c + 1) =~= m@.take(c as int).push(col));
            lemma_concat_map_push(m@.take(c as int), col, |col: [u32; 4]| floats(col@));
            assert(buf@ =~= start + concat_map(m@.take(c + 1), |col: [u32; 4]| floats(col@)));
        }
        c = c + 1;
    }
    assert(m@.take(4) =~= m@);
}

fn put_matrices(buf: &mut Vec<u8>, v: &Vec<RawMatrix>)
    requires
        fits(v@.len()),
    ensures
        final(buf)@ == old(buf)@ + list_bytes(v@, |x: RawMatrix| matrix_bytes(x)),
{
    let ghost start = buf@;
    put_array_header(buf, v.len());
    let ghost head = buf@;
    let mut i: usize = 0;
    while i < v.len()
        invariant
            i <= v@.len(),
            head == start + array_header(v@.len()),
            buf@ == head + concat_map(v@.take(i as int), |x: RawMatrix| matrix_bytes(x)),
        decreases v@.len() - i,
    {
        put_matrix(buf, &v[i]);
        proof {
            assert(v@.take(i + 1) =~= v@.take(i as int).push(v@[i as int]));
            lemma_concat_map_push(v@.take(i as int), v@[i as int], |x: RawMatrix| matrix_bytes(x));
            assert(buf@ =~= head + concat_map(v@.take(i + 1), |x: RawMatrix| matrix_bytes(x)));
        }
        i = i + 1;
    }
    assert(v@.take(i as int) =~= v@);
    assert(buf@ =~= start + list_bytes(v@, |x: RawMatrix| matrix_bytes(x)));
}

fn put_mesh(buf: &mut Vec<u8>, m: &SerializedMesh)
    requires
        mesh_fits(*m),
    ensures
        final(buf)@ == old(buf)@ + mesh_bytes(*m),
{
    let ghost start = buf@;
    put_float_arrays(buf, &m.positions);
    put_float_arrays(buf, &m.normals);
    put_float_arrays(buf, &m.uvs);
    put_uint_list(buf, &m.indices);
    put_uint(buf, m.material_index);
    put_floats(buf, &m.min_extents);
    put_floats(buf, &m.max_extents);
    put_floats(buf, &m.dimensions);
    put_floats(buf, &m.scale);
    put_floats(buf, &m.rotation);
    put_floats(buf, &m.translation);
    put_uint_quads(buf, &m.bone_indices);
    put_float_arrays(buf, &m.bone_weights);
    assert(buf@ =~= start + mesh_bytes(*m));
}

fn put_material(buf: &mut Vec<u8>, m: &SerializedMaterial)
    requires
        material_fits(*m),
    ensures
        final(buf)@ == old(buf)@ + material_bytes(*m),
{
    let ghost start = buf@;
    put_str(buf, &m.name);
    put_str(buf, &m.diffuse_texture_path);
    put_str(buf, &m.normals_texture_path);
    put_str(buf, &m.specular_texture_path);
    assert(buf@ =~= start + material_bytes(*m));
}

fn put_meshes(buf: &mut Vec<u8>, v: &Vec<SerializedMesh>)
    requires
        fits(v@.len()),
        forall|i: int| 0 <= i < v@.len() ==> mesh_fits(#[trigger] v@[i]),
    ensures
        final(buf)@ == old(buf)@ + list_bytes(v@, |x: SerializedMesh| mesh_bytes(x)),
{
    let ghost start = buf@;
    put_array_header(buf, v.len());
    let ghost head = buf@;
    let mut i: usize = 0;
    while i < v.len()
        invariant
            i <= v@.len(),
            forall|i: int| 0 <= i < v@.len() ==> mesh_fits(#[trigger] v@[i]),
            head == start + array_header(v@.len()),
            buf@ == head + concat_map(v@.take(i as int), |x: SerializedMesh| mesh_bytes(x)),
        decreases v@.len() - i,
    {
        put_mesh(buf, &v[i]);
        proof {
            assert(v@.take(i + 1) =~= v@.take(i as int).push(v@[i as int]));
            lemma_concat_map_push(v@.take(i as int), v@[i as int], |x: SerializedMesh| mesh_bytes(x));
            assert(buf@ =~= head + concat_map(v@.take(i + 1), |x: SerializedMesh| mesh_bytes(x)));
        }
        i = i + 1;
    }
    assert(v@.take(i as int) =~= v@);
    assert(buf@ =~= start + list_bytes(v@, |x: SerializedMesh| mesh_bytes(x)));
}

fn put_materials(buf: &mut Vec<u8>, v: &Vec<SerializedMaterial>)
    requires
        fits(v@.len()),
        forall|i: int| 0 <= i < v@.len() ==> material_fits(#[trigger] v@[i]),
    ensures
        final(buf)@ == old(buf)@ + list_bytes(v@, |x: SerializedMaterial| material_bytes(x)),
{
    let ghost start = buf@;
    put_array_header(buf, v.len());
    let ghost head = buf@;
    let mut i: usize = 0;
    while i < v.len()
        invariant
            i <= v@.len(),
            forall|i: int| 0 <= i < v@.len() ==> material_fits(#[trigger] v@[i]),
            head == start + array_header(v@.len()),
            buf@ == head + concat_map(v@.take(i as int), |x: SerializedMaterial| material_bytes(x)),
        decreases v@.len() - i,
    {
        put_material(buf, &v[i]);
        proof {
            assert(v@.take(i + 1) =~= v@.take(i as int).push(v@[i as int]));
            lemma_concat_map_push(v@.take(i as int), v@[i as int], |x: SerializedMaterial| material_bytes(x));
            assert(buf@ =~= head + concat_map(v@.take(i + 1), |x: SerializedMaterial| material_bytes(x)));
        }
        i = i + 1;
    }
    assert(v@.take(i as int) =~= v@);
    assert(buf@ =~= start + list_bytes(v@, |x: SerializedMaterial| material_bytes(x)));
}

fn len_fits(n: usize) -> (r: bool)
    ensures
        r == fits(n as nat),
{
    n as u64 <= 0xffff_ffffu64
}

fn str_fits(s: &String) -> (r: bool)
    ensures
        r == string_fits(*s),
{
    len_fits(s.as_str().as_bytes().len())
}

fn strings_fit(v: &Vec<String>) -> (r: bool)
    ensures
        r == (forall|i: int| 0 <= i < v@.len() ==> string_fits(#[trigger] v@[i])),
{
    let mut i: usize = 0;
    while i < v.len()
        invariant
            i <= v@.len(),
            forall|k: int| 0 <= k < i ==> string_fits(#[trigger] v@[k]),
        decreases v@.len() - i,
    {
        if !str_fits(&v[i]) {
            return false;
        }
        i = i + 1;
    }
    true
}

/// Whether every length in the model fits a 32-bit length prefix.
pub fn is_encodable(m: &SerializedModel) -> (r: bool)
    ensures
        r == encodable(*m),
{
    if !(len_fits(m.meshes.len()) && len_fits(m.materials.len()) && len_fits(m.bone_names.len())
        && len_fits(m.inverse_bind_matrices.len())) {
        return false;
    }
    let mut i: usize = 0;
    while i < m.meshes.len()
        invariant
            i <= m.meshes@.len(),
            forall|k: int| 0 <= k < i ==> mesh_fits(#[trigger] m.meshes@[k]),
        decreases m.meshes@.len() - i,
    {
        let x = &m.meshes[i];
        if !(len_fits(x.positions.len()) && len_fits(x.normals.len()) && len_fits(x.uvs.len())
            && len_fits(x.indices.len()) && len_fits(x.bone_indices.len()) && len_fits(x.bone_weights.len())) {
            return false;
        }
        i = i + 1;
    }
    let mut j: usize = 0;
    while j < m.materials.len()
        invariant
            j <= m.materials@.len(),
            forall|k: int| 0 <= k < j ==> material_fits(#[trigger] m.materials@[k]),
        decreases m.materials@.len() - j,
    {
        let x = &m.materials[j];
        if !(str_fits(&x.name) && str_fits(&x.diffuse_texture_path) && str_fits(&x.normals_texture_path)
            && str_fits(&x.specular_texture_path)) {
            return false;
        }
        j = j + 1;
    }
    strings_fit(&m.bone_names)
}

/// Packs the model into one buffer: meshes, materials, bone names, inverse
/// bind matrices, in that order. `None` when some length does not fit the
/// format's 32-bit length prefixes.
pub fn encode_model(m: &SerializedModel) -> (r: Option<Vec<u8>>)
    ensures
        r is Some <==> encodable(*m),
        r is Some ==> r->Some_0@ == model_bytes(*m),
{
    if !is_encodable(m) {
        return None;
    }
    let mut buf: Vec<u8> = Vec::new();
    put_meshes(&mut buf, &m.meshes);
    put_materials(&mut buf, &m.materials);
    put_strings(&mut buf, &m.bone_names);
    put_matrices(&mut buf, &m.inverse_bind_matrices);
    assert(buf@ =~= model_bytes(*m));
    Some(buf)
}

} // verus!
