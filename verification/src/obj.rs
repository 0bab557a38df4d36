//! The OBJ mesh reader.
//!
//! An OBJ file is a line-oriented text format: `v` lines list positions,
//! `vt` texture coordinates, `vn` normals, and `f` lines list faces whose
//! vertices name earlier entries by 1-based index, position, texture and
//! normal separated by `/`. Faces with more than three vertices are cut
//! into a fan of triangles anchored at the face's first vertex.
//!
//! The spec functions `point3_spec`, `point2_spec`, `vertex_data_spec`,
//! `polygon_spec`, `line_step` and `run` state what every line of text
//! contributes to the triangle list, first error included; the `ObjParser`
//! methods return exactly what those functions describe.

use vstd::prelude::*;

use crate::mesh::Double;
use crate::mesh::DoubleView;
use crate::mesh::Triple;
use crate::mesh::TripleView;
use crate::mesh::VertexData;
use crate::mesh::VertexDataView;
use crate::mesh::white;
use crate::mesh::white_view;
use crate::scalar::is_scalar;
use crate::scalar::is_scalar_token;
use crate::text::is_usize_token;
use crate::text::msg_could_not_parse;
use crate::text::could_not_parse_msg;
use crate::text::parse;
use crate::text::split_char;
use crate::text::split_on;
use crate::text::str_eq;
use crate::text::tokens;
use crate::text::tokens_of;
use crate::text::usize_token_value;

verus! {

/// Everything the reader has accumulated: the three index-addressed lists
/// and the triangle vertices already emitted.
#[verifier::ext_equal]
pub struct ParserState {
    pub points: Seq<TripleView>,
    pub texture_coords: Seq<DoubleView>,
    pub normals: Seq<TripleView>,
    pub vertices: Seq<VertexDataView>,
}

/// The state before any line has been read.
pub open spec fn initial_state() -> ParserState {
    ParserState {
        points: Seq::empty(),
        texture_coords: Seq::empty(),
        normals: Seq::empty(),
        vertices: Seq::empty(),
    }
}

/// The message returned when a face record lists fewer than two vertices.
pub open spec fn msg_polygon() -> Seq<char> {
    "Not enough entities for a polygon"@
}

/// The message returned when a point record lists too few coordinates.
pub open spec fn msg_point() -> Seq<char> {
    "Not enough coordinates for a point 3"@
}

/// The message returned when a face vertex lacks one of its three index
/// fields.
pub open spec fn msg_vertex_fields() -> Seq<char> {
    "Not enough index fields for a face vertex"@
}

/// The message returned when a face vertex names no earlier entry: an
/// index of zero, or one past the end of its list.
pub open spec fn msg_index_range() -> Seq<char> {
    "Face vertex index out of range"@
}

/// What a `v` or `vn` record denotes: the three tokens after the keyword,
/// each a coordinate the renderer's number parser accepts; or the first
/// error.
pub open spec fn point3_spec(toks: Seq<Seq<char>>) -> Result<TripleView, Seq<char>> {
    if toks.len() < 4 {
        Err(msg_point())
    } else if !is_scalar_token(toks[1]) {
        Err(msg_could_not_parse(toks[1], "f32"@))
    } else if !is_scalar_token(toks[2]) {
        Err(msg_could_not_parse(toks[2], "f32"@))
    } else if !is_scalar_token(toks[3]) {
        Err(msg_could_not_parse(toks[3], "f32"@))
    } else {
        Ok(TripleView { x: toks[1], y: toks[2], z: toks[3] })
    }
}

/// What a `vt` record denotes: the two tokens after the keyword. The
/// vertical coordinate is kept as written; the renderer flips it when it
/// converts tokens to numbers.
pub open spec fn point2_spec(toks: Seq<Seq<char>>) -> Result<DoubleView, Seq<char>> {
    if toks.len() < 3 {
        Err(msg_point())
    } else if !is_scalar_token(toks[1]) {
        Err(msg_could_not_parse(toks[1], "f32"@))
    } else if !is_scalar_token(toks[2]) {
        Err(msg_could_not_parse(toks[2], "f32"@))
    } else {
        Ok(DoubleView { x: toks[1], y: toks[2] })
    }
}

/// What one face vertex `p/t/n` denotes: the named position, texture
/// coordinate and normal, resolved 1-based in the accumulated lists and
/// coloured white; or the first error, in the order the fields are read.
pub open spec fn vertex_data_spec(st: ParserState, tok: Seq<char>) -> Result<
    VertexDataView,
    Seq<char>,
> {
    let parts = split_char(tok, '/');
    if !is_usize_token(parts[0]) {
        Err(msg_could_not_parse(parts[0], "usize"@))
    } else if usize_token_value(parts[0]) == 0 || usize_token_value(parts[0]) > st.points.len() {
        Err(msg_index_range())
    } else if parts.len() < 2 {
        Err(msg_vertex_fields())
    } else if !is_usize_token(parts[1]) {
        Err(msg_could_not_parse(parts[1], "usize"@))
    } else if usize_token_value(parts[1]) == 0 || usize_token_value(parts[1])
        > st.texture_coords.len() {
        Err(msg_index_range())
    } else if parts.len() < 3 {
        Err(msg_vertex_fields())
    } else if !is_usize_token(parts[2]) {
        Err(msg_could_not_parse(parts[2], "usize"@))
    } else if usize_token_value(parts[2]) == 0 || usize_token_value(parts[2])
        > st.normals.len() {
        Err(msg_index_range())
    } else {
        Ok(
            VertexDataView {
                coordinates: st.points[usize_token_value(parts[0]) - 1],
                texture_coordinates: st.texture_coords[usize_token_value(parts[1]) - 1],
                color: white_view(),
                normal: st.normals[usize_token_value(parts[2]) - 1],
            },
        )
    }
}

/// The triangles the fan cut emits from the face vertices at `i` onward:
/// one triangle `base, toks[i], toks[i + 1]` per position, stopping before
/// the last vertex; or the first error.
pub open spec fn fan_spec(
    st: ParserState,
    base: VertexDataView,
    toks: Seq<Seq<char>>,
    i: int,
) -> Result<Seq<VertexDataView>, Seq<char>>
    decreases toks.len() - i,
{
    if i < 0 || i + 1 >= toks.len() {
        Ok(Seq::empty())
    } else {
        match vertex_data_spec(st, toks[i]) {
            Err(e) => Err(e),
            Ok(v1) => match vertex_data_spec(st, toks[i + 1]) {
                Err(e) => Err(e),
                Ok(v2) => match fan_spec(st, base, toks, i + 1) {
                    Err(e) => Err(e),
                    Ok(rest) => Ok(seq![base, v1, v2] + rest),
                },
            },
        }
    }
}

/// What an `f` record appends: the fan of its vertices anchored at the
/// first; or the first error.
pub open spec fn polygon_spec(st: ParserState, toks: Seq<Seq<char>>) -> Result<
    Seq<VertexDataView>,
    Seq<char>,
> {
    if toks.len() < 3 {
        Err(msg_polygon())
    } else {
        match vertex_data_spec(st, toks[1]) {
            Err(e) => Err(e),
            Ok(base) => fan_spec(st, base, toks, 2),
        }
    }
}

/// How one line changes the state: blank lines, comment lines and records
/// with an unknown keyword change nothing; `v`, `vt`, `vn` append to their
/// lists; `f` appends its triangle fan to the vertices.
pub open spec fn line_step(st: ParserState, line: Seq<char>) -> Result<ParserState, Seq<char>> {
    if line.len() == 0 || line[0] == '#' {
        Ok(st)
    } else {
        let toks = tokens_of(line);
        if toks.len() == 0 {
            Ok(st)
        } else if toks[0] == "v"@ {
            match point3_spec(toks) {
                Err(e) => Err(e),
                Ok(t) => Ok(
                    ParserState {
                        points: st.points.push(t),
                        texture_coords: st.texture_coords,
                        normals: st.normals,
                        vertices: st.vertices,
                    },
                ),
            }
        } else if toks[0] == "vt"@ {
            match point2_spec(toks) {
                Err(e) => Err(e),
                Ok(t) => Ok(
                    ParserState {
                        points: st.points,
                        texture_coords: st.texture_coords.push(t),
                        normals: st.normals,
                        vertices: st.vertices,
                    },
                ),
            }
        } else if toks[0] == "vn"@ {
            match point3_spec(toks) {
                Err(e) => Err(e),
                Ok(t) => Ok(
                    ParserState {
                        points: st.points,
                        texture_coords: st.texture_coords,
                        normals: st.normals.push(t),
                        vertices: st.vertices,
                    },
                ),
            }
        } else if toks[0] == "f"@ {
            match polygon_spec(st, toks) {
                Err(e) => Err(e),
                Ok(vs) => Ok(
                    ParserState {
                        points: st.points,
                        texture_coords: st.texture_coords,
                        normals: st.normals,
                        vertices: st.vertices + vs,
                    },
                ),
            }
        } else {
            Ok(st)
        }
    }
}

/// What reading every line yields: the final triangle list, or the first
/// error any line raises.
pub open spec fn run(st: ParserState, lines: Seq<Seq<char>>) -> Result<
    Seq<VertexDataView>,
    Seq<char>,
>
    decreases lines.len(),
{
    if lines.len() == 0 {
        Ok(st.vertices)
    } else {
        match line_step(st, lines[0]) {
            Err(e) => Err(e),
            Ok(st2) => run(st2, lines.drop_first()),
        }
    }
}

/// A face record of `n` vertices that resolves without error emits exactly
/// `3 * (n - 2)` triangle vertices — here stated over the whole record,
/// keyword included, so `toks.len() == n + 1`; a two-vertex face emits
/// nothing.
pub proof fn lemma_polygon_spec_len(st: ParserState, toks: Seq<Seq<char>>)
    requires
        polygon_spec(st, toks) is Ok,
    ensures
        polygon_spec(st, toks)->Ok_0.len() == if toks.len() <= 3 {
            0int
        } else {
            3 * (toks.len() - 3)
        },
{
    match vertex_data_spec(st, toks[1]) {
        Err(_) => {},
        Ok(base) => {
            lemma_fan_spec_len(st, base, toks, 2);
        },
    }
}

/// The fan from position `i` onward emits three vertices per remaining
/// triangle.
pub proof fn lemma_fan_spec_len(st: ParserState, base: VertexDataView, toks: Seq<Seq<char>>, i: int)
    requires
        0 <= i,
        fan_spec(st, base, toks, i) is Ok,
    ensures
        fan_spec(st, base, toks, i)->Ok_0.len() == if i + 1 >= toks.len() {
            0int
        } else {
            3 * (toks.len() - 1 - i)
        },
    decreases toks.len() - i,
{
    if i + 1 < toks.len() {
        match vertex_data_spec(st, toks[i]) {
            Err(_) => {},
            Ok(_) => match vertex_data_spec(st, toks[i + 1]) {
                Err(_) => {},
                Ok(_) => {
                    lemma_fan_spec_len(st, base, toks, i + 1);
                },
            },
        }
    }
}

/// One line keeps the vertex count a multiple of three.
proof fn lemma_line_step_triangles(st: ParserState, line: Seq<char>)
    requires
        line_step(st, line) is Ok,
        st.vertices.len() % 3 == 0,
    ensures
        line_step(st, line)->Ok_0.vertices.len() % 3 == 0,
{
    if !(line.len() == 0 || line[0] == '#') {
        let toks = tokens_of(line);
        if toks.len() != 0 && !(toks[0] == "v"@) && !(toks[0] == "vt"@) && !(toks[0] == "vn"@)
            && toks[0] == "f"@ {
            lemma_polygon_spec_len(st, toks);
        }
    }
}

/// One line never disturbs what is already emitted: it at most appends.
proof fn lemma_line_step_appends(st: ParserState, line: Seq<char>)
    requires
        line_step(st, line) is Ok,
    ensures
        st.vertices.is_prefix_of(line_step(st, line)->Ok_0.vertices),
{
    let st2 = line_step(st, line)->Ok_0;
    assert(st.vertices =~= st2.vertices.subrange(0, st.vertices.len() as int));
}

/// The reader only appends: everything a state has already emitted stands
/// unchanged, in place, at the front of what a successful run yields.
pub proof fn lemma_run_appends(st: ParserState, lines: Seq<Seq<char>>)
    requires
        run(st, lines) is Ok,
    ensures
        st.vertices.is_prefix_of(run(st, lines)->Ok_0),
    decreases lines.len(),
{
    if lines.len() == 0 {
        assert(st.vertices =~= run(st, lines)->Ok_0.subrange(0, st.vertices.len() as int));
    } else {
        match line_step(st, lines[0]) {
            Err(_) => {},
            Ok(st2) => {
                lemma_line_step_appends(st, lines[0]);
                lemma_run_appends(st2, lines.drop_first());
                let vs = run(st2, lines.drop_first())->Ok_0;
                assert forall|k: int| 0 <= k < st.vertices.len() implies st.vertices[k] == vs[k] by {
                    assert(st.vertices[k] == st2.vertices[k]);
                    assert(st2.vertices[k] == vs[k]);
                }
                assert(st.vertices =~= vs.subrange(0, st.vertices.len() as int));
            },
        }
    }
}

/// The reader emits whole triangles: from a state whose vertex list is a
/// multiple of three long — the empty initial state included — a
/// successful run yields a vertex list that is again a multiple of three
/// long.
pub proof fn lemma_run_triangles(st: ParserState, lines: Seq<Seq<char>>)
    requires
        st.vertices.len() % 3 == 0,
        run(st, lines) is Ok,
    ensures
        run(st, lines)->Ok_0.len() % 3 == 0,
    decreases lines.len(),
{
    if lines.len() > 0 {
        match line_step(st, lines[0]) {
            Err(_) => {},
            Ok(st2) => {
                lemma_line_step_triangles(st, lines[0]);
                lemma_run_triangles(st2, lines.drop_first());
            },
        }
    }
}

/// Reads a `v` or `vn` record: the keyword, then at least three coordinate
/// tokens. Returns exactly what `point3_spec` describes.
pub fn parse_point_3(split: &Vec<String>) -> (r: Result<Triple, String>)
    ensures
        match r {
            Ok(t) => point3_spec(split@.map_values(|p: String| p@)) == Ok::<TripleView, Seq<char>>(
                t@,
            ),
            Err(e) => point3_spec(split@.map_values(|p: String| p@)) == Err::<
                TripleView,
                Seq<char>,
            >(e@),
        },
{
    if split.len() < 4 {
        return Err("Not enough coordinates for a point 3".to_owned());
    }
    if !is_scalar(split[1].as_str()) {
        return Err(could_not_parse_msg(split[1].as_str(), "f32"));
    }
    if !is_scalar(split[2].as_str()) {
        return Err(could_not_parse_msg(split[2].as_str(), "f32"));
    }
    if !is_scalar(split[3].as_str()) {
        return Err(could_not_parse_msg(split[3].as_str(), "f32"));
    }
    Ok(Triple { x: split[1].clone(), y: split[2].clone(), z: split[3].clone() })
}

/// Reads a `vt` record: the keyword, then at least two coordinate tokens.
/// Returns exactly what `point2_spec` describes.
pub fn parse_point_2(split: &Vec<String>) -> (r: Result<Double, String>)
    ensures
        match r {
            Ok(t) => point2_spec(split@.map_values(|p: String| p@)) == Ok::<DoubleView, Seq<char>>(
                t@,
            ),
            Err(e) => point2_spec(split@.map_values(|p: String| p@)) == Err::<
                DoubleView,
                Seq<char>,
            >(e@),
        },
{
    if split.len() < 3 {
        return Err("Not enough coordinates for a point 3".to_owned());
    }
    if !is_scalar(split[1].as_str()) {
        return Err(could_not_parse_msg(split[1].as_str(), "f32"));
    }
    if !is_scalar(split[2].as_str()) {
        return Err(could_not_parse_msg(split[2].as_str(), "f32"));
    }
    Ok(Double { x: split[1].clone(), y: split[2].clone() })
}

/// The line-by-line OBJ reader: three index-addressed lists and the
/// triangle vertices emitted so far.
pub struct ObjParser {
    pub points: Vec<Triple>,
    pub texture_coords: Vec<Double>,
    pub normals: Vec<Triple>,
    pub vertices: Vec<VertexData>,
}

impl View for ObjParser {
    type V = ParserState;

    open spec fn view(&self) -> ParserState {
        ParserState {
            points: self.points@.map_values(|t: Triple| t@),
            texture_coords: self.texture_coords@.map_values(|t: Double| t@),
            normals: self.normals@.map_values(|t: Triple| t@),
            vertices: self.vertices@.map_values(|t: VertexData| t@),
        }
    }
}

impl ObjParser {
    /// A reader that has seen nothing yet.
    pub fn new() -> (r: Self)
        ensures
            r@ == initial_state(),
    {
        let r = ObjParser {
            points: Vec::new(),
            texture_coords: Vec::new(),
            normals: Vec::new(),
            vertices: Vec::new(),
        };
        proof {
            assert(r@ =~= initial_state());
        }
        r
    }

    /// Resolves one face vertex `p/t/n` against the accumulated lists.
    /// Returns exactly what `vertex_data_spec` describes.
    pub fn parse_vertex_data(&self, string: &str) -> (r: Result<VertexData, String>)
        ensures
            match r {
                Ok(v) => vertex_data_spec(self@, string@) == Ok::<VertexDataView, Seq<char>>(v@),
                Err(e) => vertex_data_spec(self@, string@) == Err::<VertexDataView, Seq<char>>(e@),
            },
    {
        let parts = split_on(string, '/');
        proof {
            crate::text::lemma_find_first_props(
                string@,
                crate::text::sep_pred('/'),
            );
            assert(split_char(string@, '/').len() >= 1);
            assert(parts@.len() >= 1);
        }
        let v_idx = match parse(parts[0].as_str()) {
            Ok(v) => v,
            Err(e) => {
                return Err(e);
            },
        };
        if v_idx == 0 || v_idx > self.points.len() {
            return Err("Face vertex index out of range".to_owned());
        }
        let point = self.points[v_idx - 1].clone();
        if parts.len() < 2 {
            return Err("Not enough index fields for a face vertex".to_owned());
        }
        let t_idx = match parse(parts[1].as_str()) {
            Ok(v) => v,
            Err(e) => {
                return Err(e);
            },
        };
        if t_idx == 0 || t_idx > self.texture_coords.len() {
            return Err("Face vertex index out of range".to_owned());
        }
        let texture = self.texture_coords[t_idx - 1].clone();
        if parts.len() < 3 {
            return Err("Not enough index fields for a face vertex".to_owned());
        }
        let n_idx = match parse(parts[2].as_str()) {
            Ok(v) => v,
            Err(e) => {
                return Err(e);
            },
        };
        if n_idx == 0 || n_idx > self.normals.len() {
            return Err("Face vertex index out of range".to_owned());
        }
        let normal = self.normals[n_idx - 1].clone();
        Ok(
            VertexData {
                coordinates: point,
                texture_coordinates: texture,
                color: white(),
                normal,
            },
        )
    }

    /// Reads an `f` record and appends its triangle fan to the emitted
    /// vertices; on an error the reader is left as it was. Returns exactly
    /// what `polygon_spec` describes.
    pub fn parse_polygon(&mut self, split: &Vec<String>) -> (r: Result<(), String>)
        ensures
            match r {
                Ok(_) => polygon_spec(old(self)@, split@.map_values(|p: String| p@)) matches Ok(vs)
                    && final(self)@ == (ParserState {
                    points: old(self)@.points,
                    texture_coords: old(self)@.texture_coords,
                    normals: old(self)@.normals,
                    vertices: old(self)@.vertices + vs,
                }),
                Err(e) => polygon_spec(old(self)@, split@.map_values(|p: String| p@)) matches Err(
                    m,
                ) && e@ == m && final(self)@ == old(self)@,
            },
    {
        let ghost toksv = split@.map_values(|p: String| p@);
        if split.len() < 3 {
            return Err("Not enough entities for a polygon".to_owned());
        }
        let base_vertex = match self.parse_vertex_data(split[1].as_str()) {
            Ok(v) => v,
            Err(e) => {
                return Err(e);
            },
        };
        let ghost st = self@;
        let mut buf: Vec<VertexData> = Vec::new();
        let mut i: usize = 2;
        let end = split.len() - 1;
        proof {
            lemma_fan_tail_trivial(st, base_vertex@, toksv, 2, buf@.map_values(|t: VertexData| t@));
        }
        while i < end
        invariant
            2 <= i <= end,
            end == split@.len() - 1,
            split@.len() >= 3,
            toksv == split@.map_values(|p: String| p@),
            st == self@,
            vertex_data_spec(st, toksv[1]) == Ok::<VertexDataView, Seq<char>>(base_vertex@),
            fan_tail(st, base_vertex@, toksv, i as int, buf@.map_values(|t: VertexData| t@))
                == fan_spec(st, base_vertex@, toksv, 2),
        decreases end - i,
        {
            let v1 = match self.parse_vertex_data(split[i].as_str()) {
                Ok(v) => v,
                Err(e) => {
                    proof {
                        assert(fan_spec(st, base_vertex@, toksv, i as int) == Err::<
                            Seq<VertexDataView>,
                            Seq<char>,
                        >(e@));
                    }
                    return Err(e);
                },
            };
            let v2 = match self.parse_vertex_data(split[i + 1].as_str()) {
                Ok(v) => v,
                Err(e) => {
                    proof {
                        assert(fan_spec(st, base_vertex@, toksv, i as int) == Err::<
                            Seq<VertexDataView>,
                            Seq<char>,
                        >(e@));
                    }
                    return Err(e);
                },
            };
            let ghost before = buf@.map_values(|t: VertexData| t@);
            buf.push(base_vertex.clone());
            buf.push(v1);
            buf.push(v2);
            proof {
                assert(buf@.map_values(|t: VertexData| t@) =~= before + seq![
                    base_vertex@,
                    v1@,
                    v2@,
                ]);
                lemma_fan_tail_step(st, base_vertex@, toksv, i as int, before, v1@, v2@);
            }
            i = i + 1;
        }
        let ghost bufv = buf@.map_values(|t: VertexData| t@);
        proof {
            assert(fan_spec(st, base_vertex@, toksv, i as int) == Ok::<
                Seq<VertexDataView>,
                Seq<char>,
            >(Seq::empty()));
            assert(bufv + Seq::<VertexDataView>::empty() =~= bufv);
            assert(fan_spec(st, base_vertex@, toksv, 2) == Ok::<Seq<VertexDataView>, Seq<char>>(
                bufv,
            ));
        }
        let ghost old_vertices = self.vertices@;
        self.vertices.append(&mut buf);
        proof {
            assert(self.vertices@.map_values(|t: VertexData| t@) =~= old_vertices.map_values(
                |t: VertexData| t@,
            ) + bufv);
            assert(self@ =~= (ParserState {
                points: old(self)@.points,
                texture_coords: old(self)@.texture_coords,
                normals: old(self)@.normals,
                vertices: old(self)@.vertices + bufv,
            }));
        }
        Ok(())
    }

    /// Reads every line in order and yields the mesh's triangle list, or
    /// the first error any line raises — exactly what `run` describes from
    /// this reader's state.
    pub fn parse_obj(self, lines: &Vec<String>) -> (r: Result<Vec<VertexData>, String>)
        ensures
            match r {
                Ok(v) => run(self@, lines@.map_values(|l: String| l@)) == Ok::<
                    Seq<VertexDataView>,
                    Seq<char>,
                >(v@.map_values(|t: VertexData| t@)),
                Err(e) => run(self@, lines@.map_values(|l: String| l@)) == Err::<
                    Seq<VertexDataView>,
                    Seq<char>,
                >(e@),
            },
    {
        let mut this = self;
        let ghost orig = this@;
        let ghost lv = lines@.map_values(|l: String| l@);
        let mut i: usize = 0;
        proof {
            assert(lv.skip(0) =~= lv);
        }
        while i < lines.len()
            invariant
                i <= lines@.len(),
                lv == lines@.map_values(|l: String| l@),
                orig == self@,
                run(this@, lv.skip(i as int)) == run(orig, lv),
            decreases lines@.len() - i,
        {
            let line = lines[i].as_str();
            proof {
                assert(line@ == lv[i as int]);
                assert(lv.skip(i as int)[0] == lv[i as int]);
                assert(lv.skip(i as int).drop_first() =~= lv.skip(i + 1));
            }
            let n = line.unicode_len();
            if n == 0 || line.get_char(0) == '#' {
                proof {
                    assert(line_step(this@, lv[i as int]) == Ok::<ParserState, Seq<char>>(this@));
                }
            } else {
                let toks = tokens(line);
                let ghost tv = tokens_of(lv[i as int]);
                if toks.len() == 0 {
                    proof {
                        assert(line_step(this@, lv[i as int]) == Ok::<ParserState, Seq<char>>(
                            this@,
                        ));
                    }
                } else {
                    let kw = toks[0].as_str();
                    proof {
                        assert(kw@ == tv[0]);
                    }
                    if str_eq(kw, "v") {
                        match parse_point_3(&toks) {
                            Ok(t) => {
                                let ghost prev = this@;
                                let ghost tview = t@;
                                this.points.push(t);
                                proof {
                                    assert(this.points@.map_values(|t: Triple| t@)
                                        =~= prev.points.push(tview));
                                    assert(this@ =~= (ParserState {
                                        points: prev.points.push(tview),
                                        texture_coords: prev.texture_coords,
                                        normals: prev.normals,
                                        vertices: prev.vertices,
                                    }));
                                    assert(line_step(prev, lv[i as int]) == Ok::<
                                        ParserState,
                                        Seq<char>,
                                    >(this@));
                                }
                            },
                            Err(e) => {
                                proof {
                                    assert(line_step(this@, lv[i as int]) == Err::<
                                        ParserState,
                                        Seq<char>,
                                    >(e@));
                                }
                                return Err(e);
                            },
                        }
                    } else if str_eq(kw, "vt") {
                        match parse_point_2(&toks) {
                            Ok(t) => {
                                let ghost prev = this@;
                                let ghost tview = t@;
                                this.texture_coords.push(t);
                                proof {
                                    assert(this.texture_coords@.map_values(|t: Double| t@)
                                        =~= prev.texture_coords.push(tview));
                                    assert(this@ =~= (ParserState {
                                        points: prev.points,
                                        texture_coords: prev.texture_coords.push(tview),
                                        normals: prev.normals,
                                        vertices: prev.vertices,
                                    }));
                                    assert(line_step(prev, lv[i as int]) == Ok::<
                                        ParserState,
                                        Seq<char>,
                                    >(this@));
                                }
                            },
                            Err(e) => {
                                proof {
                                    assert(line_step(this@, lv[i as int]) == Err::<
                                        ParserState,
                                        Seq<char>,
                                    >(e@));
                                }
                                return Err(e);
                            },
                        }
                    } else if str_eq(kw, "vn") {
                        match parse_point_3(&toks) {
                            Ok(t) => {
                                let ghost prev = this@;
                                let ghost tview = t@;
                                this.normals.push(t);
                                proof {
                                    assert(this.normals@.map_values(|t: Triple| t@)
                                        =~= prev.normals.push(tview));
                                    assert(this@ =~= (ParserState {
                                        points: prev.points,
                                        texture_coords: prev.texture_coords,
                                        normals: prev.normals.push(tview),
                                        vertices: prev.vertices,
                                    }));
                                    assert(line_step(prev, lv[i as int]) == Ok::<
                                        ParserState,
                                        Seq<char>,
                                    >(this@));
                                }
                            },
                            Err(e) => {
                                proof {
                                    assert(line_step(this@, lv[i as int]) == Err::<
                                        ParserState,
                                        Seq<char>,
                                    >(e@));
                                }
                                return Err(e);
                            },
                        }
                    } else if str_eq(kw, "f") {
                        let ghost prev = this@;
                        match this.parse_polygon(&toks) {
                            Ok(_) => {
                                proof {
                                    assert(line_step(prev, lv[i as int]) == Ok::<
                                        ParserState,
                                        Seq<char>,
                                    >(this@));
                                }
                            },
                            Err(e) => {
                                proof {
                                    assert(line_step(this@, lv[i as int]) == Err::<
                                        ParserState,
                                        Seq<char>,
                                    >(e@));
                                }
                                return Err(e);
                            },
                        }
                    } else {
                        proof {
                            assert(line_step(this@, lv[i as int]) == Ok::<ParserState, Seq<char>>(
                                this@,
                            ));
                        }
                    }
                }
            }
            i = i + 1;
        }
        proof {
            assert(lv.skip(lines@.len() as int) =~= Seq::<Seq<char>>::empty());
        }
        let ObjParser { points: _, texture_coords: _, normals: _, vertices } = this;
        Ok(vertices)
    }
}

/// The rest of a fan appended to what is already emitted, errors passed
/// through.
pub open spec fn fan_tail(
    st: ParserState,
    base: VertexDataView,
    toks: Seq<Seq<char>>,
    i: int,
    done: Seq<VertexDataView>,
) -> Result<Seq<VertexDataView>, Seq<char>> {
    match fan_spec(st, base, toks, i) {
        Err(e) => Err(e),
        Ok(rest) => Ok(done + rest),
    }
}

/// With nothing emitted, the tail is the fan itself.
proof fn lemma_fan_tail_trivial(
    st: ParserState,
    base: VertexDataView,
    toks: Seq<Seq<char>>,
    i: int,
    done: Seq<VertexDataView>,
)
    requires
        done.len() == 0,
    ensures
        fan_tail(st, base, toks, i, done) == fan_spec(st, base, toks, i),
{
    match fan_spec(st, base, toks, i) {
        Err(e) => {},
        Ok(rest) => {
            assert(done + rest =~= rest);
        },
    }
}

/// Moving one emitted triangle from the fan to the done side keeps the
/// tail.
proof fn lemma_fan_tail_step(
    st: ParserState,
    base: VertexDataView,
    toks: Seq<Seq<char>>,
    i: int,
    done: Seq<VertexDataView>,
    v1: VertexDataView,
    v2: VertexDataView,
)
    requires
        0 <= i,
        i + 1 < toks.len(),
        vertex_data_spec(st, toks[i]) == Ok::<VertexDataView, Seq<char>>(v1),
        vertex_data_spec(st, toks[i + 1]) == Ok::<VertexDataView, Seq<char>>(v2),
    ensures
        fan_tail(st, base, toks, i + 1, done + seq![base, v1, v2]) == fan_tail(
            st,
            base,
            toks,
            i,
            done,
        ),
{
    match fan_spec(st, base, toks, i + 1) {
        Err(e) => {},
        Ok(rest) => {
            assert((done + seq![base, v1, v2]) + rest =~= done + (seq![base, v1, v2] + rest));
        },
    }
}

} // verus!
