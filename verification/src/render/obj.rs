//! Reading Wavefront OBJ text: `v` lines give vertices, `f` lines give faces,
//! which are cut into triangle fans. Everything else is skipped.

use vstd::prelude::*;
use crate::render::text::{
    chars_of, check_float_literal, copy_range, is_float_literal, lemma_tokens_visible, lines,
    parse_i32, read_i32, scan, scan_to, split_lines, tokenize, tokens, views, Stop,
};
use crate::render::vertex::{Mesh, MeshView, Vertex, VertexView};

verus! {

/// Why a text is no mesh.
#[derive(Clone, Copy, Debug, PartialEq, Eq, Structural)]
pub enum ObjError {
    /// A `v` line gives fewer than three coordinates.
    MissingCoordinate,
    /// A coordinate is no floating-point literal.
    InvalidCoordinate,
    /// A face entry does not start with a decimal integer of 32 bits.
    InvalidIndex,
    /// An `f` line names no vertex.
    EmptyFace,
}

/// The vertex reference of a face entry: what stands before its first `/`.
pub open spec fn vertex_ref(entry: Seq<char>) -> Seq<char> {
    entry.subrange(0, scan(entry, 0, Stop::At('/')))
}

/// The zero-based index that the reference `i` means when `vertex_count`
/// vertices have been read: positive references count from the first vertex,
/// negative ones back from the latest. A reference outside the vertices read
/// wraps around in 32 bits.
pub open spec fn resolve_index(i: i32, vertex_count: nat) -> u32 {
    let zero_based: int = if i < 0 {
        vertex_count + i
    } else {
        i - 1
    };
    (zero_based % 0x1_0000_0000) as u32
}

pub open spec fn face_entry(entry: Seq<char>, vertex_count: nat) -> Option<u32> {
    match parse_i32(vertex_ref(entry)) {
        Some(i) => Some(resolve_index(i, vertex_count)),
        None => None,
    }
}

/// The indices of a face, if every entry has one.
pub open spec fn face_indices(entries: Seq<Seq<char>>, vertex_count: nat) -> Option<Seq<u32>> {
    if forall|k: int| 0 <= k < entries.len() ==> (#[trigger] face_entry(
        entries[k],
        vertex_count,
    )) is Some {
        Some(Seq::new(entries.len(), |k: int| face_entry(entries[k], vertex_count).unwrap()))
    } else {
        None
    }
}

/// The triangle fan of a face: triangle `t` joins corner 0 with corners
/// `t + 1` and `t + 2`. A face of fewer than three corners gives none.
pub open spec fn fan(face: Seq<u32>) -> Seq<u32> {
    let triangles: int = if face.len() >= 2 {
        face.len() - 2
    } else {
        0
    };
    Seq::new(
        (3 * triangles) as nat,
        |k: int|
            if k % 3 == 0 {
                face[0]
            } else if k % 3 == 1 {
                face[k / 3 + 1]
            } else {
                face[k / 3 + 2]
            },
    )
}

/// What is wrong with coordinate `k` of a `v` line, if anything.
pub open spec fn coordinate_error(line: Seq<Seq<char>>, k: int) -> Option<ObjError> {
    if line.len() <= k {
        Some(ObjError::MissingCoordinate)
    } else if !is_float_literal(line[k]) {
        Some(ObjError::InvalidCoordinate)
    } else {
        None
    }
}

/// The vertex of a `v` line: its first three coordinates, checked in order.
pub open spec fn read_vertex(line: Seq<Seq<char>>) -> Result<VertexView, ObjError> {
    if let Some(e) = coordinate_error(line, 1) {
        Err(e)
    } else if let Some(e) = coordinate_error(line, 2) {
        Err(e)
    } else if let Some(e) = coordinate_error(line, 3) {
        Err(e)
    } else {
        Ok(VertexView { x: line[1], y: line[2], z: line[3] })
    }
}

/// The mesh after one more line, given as its tokens.
pub open spec fn read_line(mesh: MeshView, line: Seq<Seq<char>>) -> Result<MeshView, ObjError> {
    if line.len() == 0 || (line[0].len() > 0 && line[0][0] == '#') {
        Ok(mesh)
    } else if line[0] == seq!['v'] {
        match read_vertex(line) {
            Ok(vertex) => Ok(
                MeshView { vertices: mesh.vertices.push(vertex), indices: mesh.indices },
            ),
            Err(e) => Err(e),
        }
    } else if line[0] == seq!['f'] {
        match face_indices(line.subrange(1, line.len() as int), mesh.vertices.len()) {
            None => Err(ObjError::InvalidIndex),
            Some(face) => if face.len() == 0 {
                Err(ObjError::EmptyFace)
            } else {
                Ok(MeshView { vertices: mesh.vertices, indices: mesh.indices + fan(face) })
            },
        }
    } else {
        Ok(mesh)
    }
}

/// The mesh after the lines `text_lines`, read in order: the first line that
/// fails decides the error.
pub open spec fn read_lines(mesh: MeshView, text_lines: Seq<Seq<char>>) -> Result<
    MeshView,
    ObjError,
>
    decreases text_lines.len(),
{
    if text_lines.len() == 0 {
        Ok(mesh)
    } else {
        match read_line(mesh, tokens(text_lines[0])) {
            Ok(next) => read_lines(next, text_lines.drop_first()),
            Err(e) => Err(e),
        }
    }
}

/// The mesh that an OBJ text describes.
pub open spec fn read_obj(text: Seq<char>) -> Result<MeshView, ObjError> {
    read_lines(MeshView::empty(), lines(text))
}

pub fn resolve(i: i32, vertex_count: usize) -> (index: u32)
    ensures
        index == resolve_index(i, vertex_count as nat),
{
    let count: u64 = (vertex_count as u64) % 0x1_0000_0000;
    let zero_based: i64 = if i < 0 {
        count as i64 + i as i64
    } else {
        i as i64 - 1
    };
    let wrapped: i64 = if zero_based < 0 {
        zero_based + 0x1_0000_0000
    } else {
        zero_based
    };
    proof {
        let target: int = if i < 0 {
            vertex_count + i
        } else {
            i - 1
        };
        let turns: int = if zero_based < 0 {
            vertex_count as int / 0x1_0000_0000 - 1
        } else {
            vertex_count as int / 0x1_0000_0000
        };
        assert(i < 0 ==> target == 0x1_0000_0000 * turns + wrapped);
        assert(i < 0 ==> target % 0x1_0000_0000 == wrapped) by {
            if i < 0 {
                vstd::arithmetic::div_mod::lemma_fundamental_div_mod_converse(
                    target,
                    0x1_0000_0000,
                    turns,
                    wrapped as int,
                );
            }
        }
    }
    wrapped as u32
}

/// Reads the face entries `line[1..]`.
fn read_face(line: &Vec<Vec<char>>, vertex_count: usize) -> (r: Option<Vec<u32>>)
    requires
        line.len() >= 1,
    ensures
        match r {
            Some(face) => face_indices(
                views(line@).subrange(1, line.len() as int),
                vertex_count as nat,
            ) == Some(face@),
            None => face_indices(views(line@).subrange(1, line.len() as int), vertex_count as nat)
                is None,
        },
{
    let ghost entries = views(line@).subrange(1, line.len() as int);
    let mut face: Vec<u32> = Vec::new();
    let mut k: usize = 1;
    while k < line.len()
        invariant
            1 <= k <= line.len(),
            entries == views(line@).subrange(1, line.len() as int),
            face.len() == k - 1,
            forall|j: int|
                0 <= j < k - 1 ==> (#[trigger] face_entry(entries[j], vertex_count as nat)) == Some(
                    face[j],
                ),
        decreases line.len() - k,
    {
        let entry = &line[k];
        let cut = scan_to(entry, 0, Stop::At('/'));
        let reference = copy_range(entry, 0, cut);
        assert(entries[k - 1] == entry@);
        match read_i32(&reference) {
            None => {
                assert(face_entry(entries[k - 1], vertex_count as nat) is None);
                return None;
            },
            Some(i) => {
                face.push(resolve(i, vertex_count));
            },
        }
        k += 1;
    }
    proof {
        assert(face@ =~= face_indices(entries, vertex_count as nat).unwrap());
    }
    Some(face)
}

/// Appends the triangle fan of `face`.
fn push_fan(indices: &mut Vec<u32>, face: &Vec<u32>)
    ensures
        final(indices)@ == old(indices)@ + fan(face@),
{
    if face.len() < 3 {
        assert(fan(face@) =~= Seq::empty());
        assert(indices@ + fan(face@) =~= indices@);
        return ;
    }
    let mut t: usize = 0;
    while t < face.len() - 2
        invariant
            face.len() >= 3,
            0 <= t <= face.len() - 2,
            indices@ == old(indices)@ + fan(face@).take(3 * t),
        decreases face.len() - t,
    {
        proof {
            let whole = fan(face@);
            let grown = whole.take(3 * t) + seq![face[0], face[t + 1], face[t + 2]];
            assert(whole[3 * t] == face[0]);
            assert(whole[3 * t + 1] == face[t + 1]);
            assert(whole[3 * t + 2] == face[t + 2]);
            assert(whole.take(3 * (t + 1)) =~= grown);
            assert(indices@.push(face[0]).push(face[t + 1]).push(face[t + 2]) =~= old(indices)@
                + grown);
        }
        indices.push(face[0]);
        indices.push(face[t + 1]);
        indices.push(face[t + 2]);
        t += 1;
    }
    proof {
        assert(fan(face@).take(3 * t) =~= fan(face@));
    }
}

/// Reads coordinate `k` of a `v` line.
fn read_coordinate(line: &Vec<Vec<char>>, k: usize) -> (r: Result<Vec<char>, ObjError>)
    ensures
        match r {
            Ok(token) => coordinate_error(views(line@), k as int) is None && token@ == views(
                line@,
            )[k as int],
            Err(e) => coordinate_error(views(line@), k as int) == Some(e),
        },
{
    if line.len() <= k {
        return Err(ObjError::MissingCoordinate);
    }
    assert(views(line@)[k as int] == line[k as int]@);
    if !check_float_literal(&line[k]) {
        return Err(ObjError::InvalidCoordinate);
    }
    let token = copy_range(&line[k], 0, line[k].len());
    assert(token@ =~= line[k as int]@);
    Ok(token)
}

fn read_vertex_line(line: &Vec<Vec<char>>) -> (r: Result<Vertex, ObjError>)
    ensures
        match r {
            Ok(vertex) => read_vertex(views(line@)) == Ok::<VertexView, ObjError>(vertex@),
            Err(e) => read_vertex(views(line@)) == Err::<VertexView, ObjError>(e),
        },
{
    let x = match read_coordinate(line, 1) {
        Ok(token) => token,
        Err(e) => {
            return Err(e);
        },
    };
    let y = match read_coordinate(line, 2) {
        Ok(token) => token,
        Err(e) => {
            return Err(e);
        },
    };
    let z = match read_coordinate(line, 3) {
        Ok(token) => token,
        Err(e) => {
            return Err(e);
        },
    };
    Ok(Vertex { x, y, z })
}

/// Reads one line, given as its tokens, into `mesh`. A line that fails
/// leaves `mesh` as it was.
pub fn push_line(mesh: &mut Mesh, line: &Vec<Vec<char>>) -> (r: Result<(), ObjError>)
    requires
        forall|k: int| 0 <= k < line.len() ==> (#[trigger] line[k]).len() > 0,
    ensures
        match r {
            Ok(_) => read_line(old(mesh)@, views(line@)) == Ok::<MeshView, ObjError>(
                final(mesh)@,
            ),
            Err(e) => read_line(old(mesh)@, views(line@)) == Err::<MeshView, ObjError>(e)
                && final(mesh)@ == old(mesh)@,
        },
        old(mesh)@.sound() ==> final(mesh)@.sound(),
{
    if line.len() == 0 {
        return Ok(());
    }
    let tag = &line[0];
    assert(views(line@)[0] == tag@);
    if tag[0] == '#' {
        return Ok(());
    }
    if tag.len() == 1 && tag[0] == 'v' {
        assert(tag@ =~= seq!['v']);
        match read_vertex_line(line) {
            Err(e) => {
                return Err(e);
            },
            Ok(vertex) => {
                proof {
                    assert(mesh.vertices@.push(vertex).map_values(|v: Vertex| v@)
                        =~= mesh@.vertices.push(vertex@));
                }
                mesh.vertices.push(vertex);
                return Ok(());
            },
        }
    }
    if tag.len() == 1 && tag[0] == 'f' {
        assert(tag@ =~= seq!['f']);
        assert(mesh@.vertices.len() == mesh.vertices.len());
        match read_face(line, mesh.vertices.len()) {
            None => {
                return Err(ObjError::InvalidIndex);
            },
            Some(face) => {
                if face.len() == 0 {
                    return Err(ObjError::EmptyFace);
                }
                push_fan(&mut mesh.indices, &face);
                return Ok(());
            },
        }
    }
    assert(tag@ != seq!['v'] && tag@ != seq!['f']) by {
        assert(seq!['v'].len() == 1 && seq!['v'][0] == 'v');
        assert(seq!['f'].len() == 1 && seq!['f'][0] == 'f');
    }
    Ok(())
}

/// Reads an OBJ text into a mesh.
pub fn parse_obj(text: &str) -> (r: Result<Mesh, ObjError>)
    ensures
        match r {
            Ok(mesh) => read_obj(text@) == Ok::<MeshView, ObjError>(mesh@) && mesh@.sound(),
            Err(e) => read_obj(text@) == Err::<MeshView, ObjError>(e),
        },
{
    let chars = chars_of(text);
    let text_lines = split_lines(&chars);
    let mut mesh = Mesh::new();
    let mut i: usize = 0;
    proof {
        assert(lines(text@).subrange(0, text_lines.len() as int) =~= lines(text@));
    }
    while i < text_lines.len()
        invariant
            0 <= i <= text_lines.len(),
            views(text_lines@) == lines(text@),
            mesh@.sound(),
            read_lines(mesh@, lines(text@).subrange(i as int, text_lines.len() as int))
                == read_obj(text@),
        decreases text_lines.len() - i,
    {
        let ghost rest = lines(text@).subrange(i as int, text_lines.len() as int);
        let line = tokenize(&text_lines[i]);
        proof {
            assert(rest[0] == text_lines[i as int]@);
            assert(rest.drop_first() =~= lines(text@).subrange(
                i + 1,
                text_lines.len() as int,
            ));
            lemma_tokens_visible(text_lines[i as int]@, 0);
            assert forall|k: int| 0 <= k < line.len() implies (#[trigger] line[k]).len() > 0 by {
                assert(views(line@)[k] == line[k]@);
            }
        }
        match push_line(&mut mesh, &line) {
            Err(e) => {
                return Err(e);
            },
            Ok(_) => {},
        }
        i += 1;
    }
    proof {
        assert(lines(text@).subrange(i as int, text_lines.len() as int) =~= Seq::empty());
        assert(views(text_lines@).len() == text_lines.len());
    }
    Ok(mesh)
}

} // verus!
