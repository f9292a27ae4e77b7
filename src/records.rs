//! The geometric values of the manifest and the fixed-layout records that
//! carry them, each decoded from the whitespace-separated tokens of a line.
use vstd::prelude::*;
use crate::text::{
    is_real, real_token, signed_of, token_i32, token_i64, token_u64, token_usize, unsigned_of,
};

verus! {

/// A real number as the manifest writes it: the token's text, which is a
/// floating-point literal.
#[derive(Clone, Debug, PartialEq)]
pub struct Real {
    pub text: Vec<u8>,
}

impl Real {
    /// The text is a floating-point literal.
    pub open spec fn wf(&self) -> bool {
        is_real(self.text@)
    }

    /// A copy with the same text.
    pub fn duplicate(&self) -> (r: Real)
        ensures
            r.text@ == self.text@,
    {
        Real { text: crate::wire::copy_range(self.text.as_slice(), 0, self.text.len()) }
    }

    /// The real written as `tok`, if `tok` is a floating-point literal.
    pub fn parse(tok: &[u8]) -> (r: Option<Real>)
        ensures
            match r {
                Some(x) => is_real(tok@) && x.text@ == tok@,
                None => !is_real(tok@),
            },
    {
        if real_token(tok) {
            Some(Real { text: crate::wire::copy_range(tok, 0, tok.len()) })
        } else {
            None
        }
    }
}

/// The `i`-th token of `t` is the real `r`.
pub open spec fn real_tok(t: Seq<Seq<u8>>, i: int, r: Real) -> bool {
    0 <= i < t.len() && is_real(t[i]) && r.text@ == t[i]
}

/// The `i`-th token of `t` is a real.
pub open spec fn is_real_tok(t: Seq<Seq<u8>>, i: int) -> bool {
    0 <= i < t.len() && is_real(t[i])
}

/// The `i`-th token of `t` is a signed integer within `lo..=hi`.
pub open spec fn signed_tok(t: Seq<Seq<u8>>, i: int, lo: int, hi: int) -> bool {
    &&& 0 <= i < t.len()
    &&& signed_of(t[i]) is Some
    &&& lo <= signed_of(t[i])->0 <= hi
}

/// The `i`-th token of `t` is an unsigned integer at most `hi`.
pub open spec fn unsigned_tok(t: Seq<Seq<u8>>, i: int, hi: int) -> bool {
    &&& 0 <= i < t.len()
    &&& unsigned_of(t[i]) is Some
    &&& unsigned_of(t[i])->0 <= hi
}

/// The value of the `i`-th token as a signed integer.
pub open spec fn signed_at(t: Seq<Seq<u8>>, i: int) -> int {
    signed_of(t[i])->0
}

/// The value of the `i`-th token as an unsigned integer.
pub open spec fn unsigned_at(t: Seq<Seq<u8>>, i: int) -> int {
    unsigned_of(t[i])->0
}

pub proof fn lemma_token_view(t: &Vec<Vec<u8>>, i: int)
    requires
        0 <= i < t@.len(),
    ensures
        t.deep_view()[i] == t@[i]@,
{
    assert(t.deep_view()[i] =~= t@[i]@);
}

pub fn real_at(t: &Vec<Vec<u8>>, i: usize) -> (r: Option<Real>)
    ensures
        match r {
            Some(x) => real_tok(t.deep_view(), i as int, x),
            None => !is_real_tok(t.deep_view(), i as int),
        },
{
    if i >= t.len() {
        return None;
    }
    proof {
        lemma_token_view(t, i as int);
    }
    Real::parse(t[i].as_slice())
}

pub fn i64_at(t: &Vec<Vec<u8>>, i: usize) -> (r: Option<i64>)
    ensures
        match r {
            Some(x) => signed_tok(t.deep_view(), i as int, i64::MIN as int, i64::MAX as int)
                && signed_at(t.deep_view(), i as int) == x,
            None => !signed_tok(t.deep_view(), i as int, i64::MIN as int, i64::MAX as int),
        },
{
    if i >= t.len() {
        return None;
    }
    proof {
        lemma_token_view(t, i as int);
    }
    token_i64(t[i].as_slice())
}

pub fn i32_at(t: &Vec<Vec<u8>>, i: usize) -> (r: Option<i32>)
    ensures
        match r {
            Some(x) => signed_tok(t.deep_view(), i as int, i32::MIN as int, i32::MAX as int)
                && signed_at(t.deep_view(), i as int) == x,
            None => !signed_tok(t.deep_view(), i as int, i32::MIN as int, i32::MAX as int),
        },
{
    if i >= t.len() {
        return None;
    }
    proof {
        lemma_token_view(t, i as int);
    }
    token_i32(t[i].as_slice())
}

pub fn u64_at(t: &Vec<Vec<u8>>, i: usize) -> (r: Option<u64>)
    ensures
        match r {
            Some(x) => unsigned_tok(t.deep_view(), i as int, u64::MAX as int) && unsigned_at(
                t.deep_view(),
                i as int,
            ) == x,
            None => !unsigned_tok(t.deep_view(), i as int, u64::MAX as int),
        },
{
    if i >= t.len() {
        return None;
    }
    proof {
        lemma_token_view(t, i as int);
    }
    token_u64(t[i].as_slice())
}

pub fn usize_at(t: &Vec<Vec<u8>>, i: usize) -> (r: Option<usize>)
    ensures
        match r {
            Some(x) => unsigned_tok(t.deep_view(), i as int, usize::MAX as int) && unsigned_at(
                t.deep_view(),
                i as int,
            ) == x,
            None => !unsigned_tok(t.deep_view(), i as int, usize::MAX as int),
        },
{
    if i >= t.len() {
        return None;
    }
    proof {
        lemma_token_view(t, i as int);
    }
    token_usize(t[i].as_slice())
}

} // verus!

verus! {

/// A colour of three bytes.
#[derive(Copy, Clone, Debug, PartialEq, Eq, PartialOrd, Ord, Hash, Structural)]
pub struct Rgb {
    pub r: u8,
    pub g: u8,
    pub b: u8,
}

/// A colour of four bytes, the last one opacity.
#[derive(Copy, Clone, Debug, PartialEq, Eq, PartialOrd, Ord, Hash, Structural)]
pub struct Rgba {
    pub r: u8,
    pub g: u8,
    pub b: u8,
    pub a: u8,
}

/// A colour of three reals.
#[derive(Clone, Debug, PartialEq)]
pub struct Rgbf {
    pub r: Real,
    pub g: Real,
    pub b: Real,
}

/// A colour of four reals, the last one opacity.
#[derive(Clone, Debug, PartialEq)]
pub struct Rgbaf {
    pub r: Real,
    pub g: Real,
    pub b: Real,
    pub a: Real,
}

/// A sextuple of grid coordinates: a region of cells.
#[derive(Copy, Clone, Debug, PartialEq, Eq, PartialOrd, Structural)]
pub struct GridRegion {
    pub i1: i64,
    pub i2: i64,
    pub j1: i64,
    pub j2: i64,
    pub k1: i64,
    pub k2: i64,
}

/// A sextuple of real coordinates: a box in space.
#[derive(Clone, Debug, PartialEq)]
pub struct Xb {
    pub x1: Real,
    pub x2: Real,
    pub y1: Real,
    pub y2: Real,
    pub z1: Real,
    pub z2: Real,
}

/// A point or vector in space.
#[derive(Clone, Debug, PartialEq)]
pub struct Xyz {
    pub x: Real,
    pub y: Real,
    pub z: Real,
}

/// The surface index of each face of an obstruction.
#[derive(Copy, Clone, Debug, PartialEq, Eq, PartialOrd, Structural)]
pub struct Surfaces {
    pub min_x: u64,
    pub max_x: u64,
    pub min_y: u64,
    pub max_y: u64,
    pub min_z: u64,
    pub max_z: u64,
}

impl Rgbf {
    pub fn new(r: Real, g: Real, b: Real) -> (s: Self)
        ensures
            s == (Rgbf { r, g, b }),
    {
        Rgbf { r, g, b }
    }
}

impl Rgbaf {
    pub fn new(r: Real, g: Real, b: Real, a: Real) -> (s: Self)
        ensures
            s == (Rgbaf { r, g, b, a }),
    {
        Rgbaf { r, g, b, a }
    }
}

impl GridRegion {
    pub fn new(i1: i64, i2: i64, j1: i64, j2: i64, k1: i64, k2: i64) -> (s: Self)
        ensures
            s == (GridRegion { i1, i2, j1, j2, k1, k2 }),
    {
        GridRegion { i1, i2, j1, j2, k1, k2 }
    }
}

impl Xb {
    pub fn new(x1: Real, x2: Real, y1: Real, y2: Real, z1: Real, z2: Real) -> (s: Self)
        ensures
            s == (Xb { x1, x2, y1, y2, z1, z2 }),
    {
        Xb { x1, x2, y1, y2, z1, z2 }
    }
}

impl Xyz {
    pub fn new(x: Real, y: Real, z: Real) -> (s: Self)
        ensures
            s == (Xyz { x, y, z }),
    {
        Xyz { x, y, z }
    }
}

impl Surfaces {
    pub fn new(min_x: u64, max_x: u64, min_y: u64, max_y: u64, min_z: u64, max_z: u64) -> (s:
        Self)
        ensures
            s == (Surfaces { min_x, max_x, min_y, max_y, min_z, max_z }),
    {
        Surfaces { min_x, max_x, min_y, max_y, min_z, max_z }
    }
}

pub open spec fn xyz_ok(t: Seq<Seq<u8>>, i: int) -> bool {
    is_real_tok(t, i) && is_real_tok(t, i + 1) && is_real_tok(t, i + 2)
}

pub open spec fn xyz_at(t: Seq<Seq<u8>>, i: int, p: Xyz) -> bool {
    real_tok(t, i, p.x) && real_tok(t, i + 1, p.y) && real_tok(t, i + 2, p.z)
}

pub open spec fn xb_ok(t: Seq<Seq<u8>>, i: int) -> bool {
    xyz_ok(t, i) && xyz_ok(t, i + 3)
}

pub open spec fn xb_at(t: Seq<Seq<u8>>, i: int, b: Xb) -> bool {
    &&& real_tok(t, i, b.x1) && real_tok(t, i + 1, b.x2)
    &&& real_tok(t, i + 2, b.y1) && real_tok(t, i + 3, b.y2)
    &&& real_tok(t, i + 4, b.z1) && real_tok(t, i + 5, b.z2)
}

pub open spec fn rgbf_at(t: Seq<Seq<u8>>, i: int, c: Rgbf) -> bool {
    real_tok(t, i, c.r) && real_tok(t, i + 1, c.g) && real_tok(t, i + 2, c.b)
}

pub open spec fn rgbaf_ok(t: Seq<Seq<u8>>, i: int) -> bool {
    xyz_ok(t, i) && is_real_tok(t, i + 3)
}

pub open spec fn rgbaf_at(t: Seq<Seq<u8>>, i: int, c: Rgbaf) -> bool {
    real_tok(t, i, c.r) && real_tok(t, i + 1, c.g) && real_tok(t, i + 2, c.b) && real_tok(
        t,
        i + 3,
        c.a,
    )
}

pub open spec fn i64_tok(t: Seq<Seq<u8>>, i: int) -> bool {
    signed_tok(t, i, i64::MIN as int, i64::MAX as int)
}

pub open spec fn u64_tok(t: Seq<Seq<u8>>, i: int) -> bool {
    unsigned_tok(t, i, u64::MAX as int)
}

pub open spec fn region_ok(t: Seq<Seq<u8>>, i: int) -> bool {
    &&& i64_tok(t, i) && i64_tok(t, i + 1) && i64_tok(t, i + 2)
    &&& i64_tok(t, i + 3) && i64_tok(t, i + 4) && i64_tok(t, i + 5)
}

pub open spec fn region_at(t: Seq<Seq<u8>>, i: int, g: GridRegion) -> bool {
    &&& region_ok(t, i)
    &&& g.i1 == signed_at(t, i) && g.i2 == signed_at(t, i + 1)
    &&& g.j1 == signed_at(t, i + 2) && g.j2 == signed_at(t, i + 3)
    &&& g.k1 == signed_at(t, i + 4) && g.k2 == signed_at(t, i + 5)
}

pub open spec fn surfaces_ok(t: Seq<Seq<u8>>, i: int) -> bool {
    &&& u64_tok(t, i) && u64_tok(t, i + 1) && u64_tok(t, i + 2)
    &&& u64_tok(t, i + 3) && u64_tok(t, i + 4) && u64_tok(t, i + 5)
}

pub open spec fn surfaces_at(t: Seq<Seq<u8>>, i: int, s: Surfaces) -> bool {
    &&& surfaces_ok(t, i)
    &&& s.min_x == unsigned_at(t, i) && s.max_x == unsigned_at(t, i + 1)
    &&& s.min_y == unsigned_at(t, i + 2) && s.max_y == unsigned_at(t, i + 3)
    &&& s.min_z == unsigned_at(t, i + 4) && s.max_z == unsigned_at(t, i + 5)
}

pub fn xyz_from(t: &Vec<Vec<u8>>, i: usize) -> (r: Option<Xyz>)
    requires
        i + 3 <= usize::MAX,
    ensures
        match r {
            Some(p) => xyz_at(t.deep_view(), i as int, p),
            None => !xyz_ok(t.deep_view(), i as int),
        },
{
    let x = real_at(t, i)?;
    let y = real_at(t, i + 1)?;
    let z = real_at(t, i + 2)?;
    Some(Xyz { x, y, z })
}

pub fn xb_from(t: &Vec<Vec<u8>>, i: usize) -> (r: Option<Xb>)
    requires
        i + 6 <= usize::MAX,
    ensures
        match r {
            Some(b) => xb_at(t.deep_view(), i as int, b),
            None => !xb_ok(t.deep_view(), i as int),
        },
{
    let x1 = real_at(t, i)?;
    let x2 = real_at(t, i + 1)?;
    let y1 = real_at(t, i + 2)?;
    let y2 = real_at(t, i + 3)?;
    let z1 = real_at(t, i + 4)?;
    let z2 = real_at(t, i + 5)?;
    Some(Xb { x1, x2, y1, y2, z1, z2 })
}

pub fn rgbf_from(t: &Vec<Vec<u8>>, i: usize) -> (r: Option<Rgbf>)
    requires
        i + 3 <= usize::MAX,
    ensures
        match r {
            Some(c) => rgbf_at(t.deep_view(), i as int, c),
            None => !xyz_ok(t.deep_view(), i as int),
        },
{
    let r = real_at(t, i)?;
    let g = real_at(t, i + 1)?;
    let b = real_at(t, i + 2)?;
    Some(Rgbf { r, g, b })
}

pub fn rgbaf_from(t: &Vec<Vec<u8>>, i: usize) -> (r: Option<Rgbaf>)
    requires
        i + 4 <= usize::MAX,
    ensures
        match r {
            Some(c) => rgbaf_at(t.deep_view(), i as int, c),
            None => !rgbaf_ok(t.deep_view(), i as int),
        },
{
    let r = real_at(t, i)?;
    let g = real_at(t, i + 1)?;
    let b = real_at(t, i + 2)?;
    let a = real_at(t, i + 3)?;
    Some(Rgbaf { r, g, b, a })
}

pub fn region_from(t: &Vec<Vec<u8>>, i: usize) -> (r: Option<GridRegion>)
    requires
        i + 6 <= usize::MAX,
    ensures
        match r {
            Some(g) => region_at(t.deep_view(), i as int, g),
            None => !region_ok(t.deep_view(), i as int),
        },
{
    let i1 = i64_at(t, i)?;
    let i2 = i64_at(t, i + 1)?;
    let j1 = i64_at(t, i + 2)?;
    let j2 = i64_at(t, i + 3)?;
    let k1 = i64_at(t, i + 4)?;
    let k2 = i64_at(t, i + 5)?;
    Some(GridRegion::new(i1, i2, j1, j2, k1, k2))
}

pub fn surfaces_from(t: &Vec<Vec<u8>>, i: usize) -> (r: Option<Surfaces>)
    requires
        i + 6 <= usize::MAX,
    ensures
        match r {
            Some(s) => surfaces_at(t.deep_view(), i as int, s),
            None => !surfaces_ok(t.deep_view(), i as int),
        },
{
    let a = u64_at(t, i)?;
    let b = u64_at(t, i + 1)?;
    let c = u64_at(t, i + 2)?;
    let d = u64_at(t, i + 3)?;
    let e = u64_at(t, i + 4)?;
    let f = u64_at(t, i + 5)?;
    Some(Surfaces::new(a, b, c, d, e, f))
}

} // verus!

verus! {

/// The first line of an obstruction: its exact box, identifier, the surface
/// of each face and an optional texture origin.
#[derive(Clone, Debug, PartialEq)]
pub struct ObstFirstHalf {
    pub xb_exact: Xb,
    pub blockage_id: i64,
    pub surfaces: Surfaces,
    pub texture_origin: Option<Xyz>,
}

/// The second line of an obstruction: its cells, colour index and block
/// type.
#[derive(Copy, Clone, Debug, PartialEq, Eq, Structural)]
pub struct ObstSecondHalf {
    pub ijk: GridRegion,
    pub color_index: i64,
    pub block_type: i64,
}

/// The first line of a vent: its exact box, identifiers and an optional
/// texture origin.
#[derive(Clone, Debug, PartialEq)]
pub struct VentFirstHalf {
    pub xb_exact: Xb,
    pub vent_id: u64,
    pub s_num: u64,
    pub texture_origin: Option<Xyz>,
}

/// The second line of a vent: its cells, index, type and an optional colour.
#[derive(Clone, Debug, PartialEq)]
pub struct VentSecondHalf {
    pub ijk: GridRegion,
    pub vent_index: i64,
    pub vent_type: i64,
    pub color: Option<Rgbaf>,
}

/// One entry of a coordinate-transform table: a grid index and its real
/// coordinate.
#[derive(Clone, Debug, PartialEq)]
pub struct TrnEntry {
    pub i: usize,
    pub f: Real,
}

/// An obstruction, both of its lines together.
#[derive(Clone, Debug, PartialEq)]
pub struct SmvObst {
    pub xb_exact: Xb,
    pub id: i64,
    pub surfaces: Surfaces,
    pub ijk: GridRegion,
    pub colour_index: i64,
    pub block_type: i64,
}

/// A vent, both of its lines together.
#[derive(Clone, Debug, PartialEq)]
pub struct SmvVent {
    pub xb_exact: Xb,
    pub vent_id: u64,
    pub s_num: u64,
    pub texture_origin: Option<Xyz>,
    pub ijk: GridRegion,
    pub vent_index: i64,
    pub vent_type: i64,
    pub color: Option<Rgbaf>,
}

/// The tokens `t` form the first line of an obstruction: six reals, an
/// identifier, six surface indices, and, if any token follows, three reals.
pub open spec fn obst_first_ok(t: Seq<Seq<u8>>) -> bool {
    &&& xb_ok(t, 0)
    &&& i64_tok(t, 6)
    &&& surfaces_ok(t, 7)
    &&& t.len() > 13 ==> xyz_ok(t, 13)
}

pub open spec fn obst_first_matches(o: ObstFirstHalf, t: Seq<Seq<u8>>) -> bool {
    &&& xb_at(t, 0, o.xb_exact)
    &&& i64_tok(t, 6) && o.blockage_id == signed_at(t, 6)
    &&& surfaces_at(t, 7, o.surfaces)
    &&& if t.len() > 13 {
        o.texture_origin matches Some(p) && xyz_at(t, 13, p)
    } else {
        o.texture_origin is None
    }
}

/// The tokens `t` form the second line of an obstruction: eight integers.
pub open spec fn obst_second_ok(t: Seq<Seq<u8>>) -> bool {
    region_ok(t, 0) && i64_tok(t, 6) && i64_tok(t, 7)
}

pub open spec fn obst_second_matches(o: ObstSecondHalf, t: Seq<Seq<u8>>) -> bool {
    &&& region_at(t, 0, o.ijk)
    &&& i64_tok(t, 6) && o.color_index == signed_at(t, 6)
    &&& i64_tok(t, 7) && o.block_type == signed_at(t, 7)
}

/// The tokens `t` form the first line of a vent: six reals, two
/// identifiers, and, if any token follows, three reals.
pub open spec fn vent_first_ok(t: Seq<Seq<u8>>) -> bool {
    &&& xb_ok(t, 0)
    &&& u64_tok(t, 6) && u64_tok(t, 7)
    &&& t.len() > 8 ==> xyz_ok(t, 8)
}

pub open spec fn vent_first_matches(v: VentFirstHalf, t: Seq<Seq<u8>>) -> bool {
    &&& xb_at(t, 0, v.xb_exact)
    &&& u64_tok(t, 6) && v.vent_id == unsigned_at(t, 6)
    &&& u64_tok(t, 7) && v.s_num == unsigned_at(t, 7)
    &&& if t.len() > 8 {
        v.texture_origin matches Some(p) && xyz_at(t, 8, p)
    } else {
        v.texture_origin is None
    }
}

/// The tokens `t` form the second line of a vent: eight integers, and, if
/// any token follows, four reals.
pub open spec fn vent_second_ok(t: Seq<Seq<u8>>) -> bool {
    &&& region_ok(t, 0) && i64_tok(t, 6) && i64_tok(t, 7)
    &&& t.len() > 8 ==> rgbaf_ok(t, 8)
}

pub open spec fn vent_second_matches(v: VentSecondHalf, t: Seq<Seq<u8>>) -> bool {
    &&& region_at(t, 0, v.ijk)
    &&& i64_tok(t, 6) && v.vent_index == signed_at(t, 6)
    &&& i64_tok(t, 7) && v.vent_type == signed_at(t, 7)
    &&& if t.len() > 8 {
        v.color matches Some(c) && rgbaf_at(t, 8, c)
    } else {
        v.color is None
    }
}

/// The tokens `t` form a transform entry: an index and a real.
pub open spec fn trn_ok(t: Seq<Seq<u8>>) -> bool {
    unsigned_tok(t, 0, usize::MAX as int) && is_real_tok(t, 1)
}

pub open spec fn trn_matches(e: TrnEntry, t: Seq<Seq<u8>>) -> bool {
    unsigned_tok(t, 0, usize::MAX as int) && e.i == unsigned_at(t, 0) && real_tok(t, 1, e.f)
}

impl ObstFirstHalf {
    /// Decodes the tokens of an obstruction's first line.
    pub fn from_tokens(t: &Vec<Vec<u8>>) -> (r: Option<Self>)
        ensures
            match r {
                Some(o) => obst_first_matches(o, t.deep_view()),
                None => !obst_first_ok(t.deep_view()),
            },
    {
        let xb_exact = xb_from(t, 0)?;
        let blockage_id = i64_at(t, 6)?;
        let surfaces = surfaces_from(t, 7)?;
        let texture_origin = if t.len() > 13 {
            Some(xyz_from(t, 13)?)
        } else {
            None
        };
        Some(ObstFirstHalf { xb_exact, blockage_id, surfaces, texture_origin })
    }
}

impl ObstSecondHalf {
    /// Decodes the tokens of an obstruction's second line.
    pub fn from_tokens(t: &Vec<Vec<u8>>) -> (r: Option<Self>)
        ensures
            match r {
                Some(o) => obst_second_matches(o, t.deep_view()),
                None => !obst_second_ok(t.deep_view()),
            },
    {
        let ijk = region_from(t, 0)?;
        let color_index = i64_at(t, 6)?;
        let block_type = i64_at(t, 7)?;
        Some(ObstSecondHalf { ijk, color_index, block_type })
    }
}

impl VentFirstHalf {
    /// Decodes the tokens of a vent's first line.
    pub fn from_tokens(t: &Vec<Vec<u8>>) -> (r: Option<Self>)
        ensures
            match r {
                Some(v) => vent_first_matches(v, t.deep_view()),
                None => !vent_first_ok(t.deep_view()),
            },
    {
        let xb_exact = xb_from(t, 0)?;
        let vent_id = u64_at(t, 6)?;
        let s_num = u64_at(t, 7)?;
        let texture_origin = if t.len() > 8 {
            Some(xyz_from(t, 8)?)
        } else {
            None
        };
        Some(VentFirstHalf { xb_exact, vent_id, s_num, texture_origin })
    }
}

impl VentSecondHalf {
    pub fn new(ijk: GridRegion, vent_index: i64, vent_type: i64, color: Option<Rgbaf>) -> (s:
        Self)
        ensures
            s == (VentSecondHalf { ijk, vent_index, vent_type, color }),
    {
        VentSecondHalf { ijk, vent_index, vent_type, color }
    }

    /// Decodes the tokens of a vent's second line.
    pub fn from_tokens(t: &Vec<Vec<u8>>) -> (r: Option<Self>)
        ensures
            match r {
                Some(v) => vent_second_matches(v, t.deep_view()),
                None => !vent_second_ok(t.deep_view()),
            },
    {
        let ijk = region_from(t, 0)?;
        let vent_index = i64_at(t, 6)?;
        let vent_type = i64_at(t, 7)?;
        let color = if t.len() > 8 {
            Some(rgbaf_from(t, 8)?)
        } else {
            None
        };
        Some(VentSecondHalf::new(ijk, vent_index, vent_type, color))
    }
}

impl TrnEntry {
    /// Decodes the tokens of a transform entry.
    pub fn from_tokens(t: &Vec<Vec<u8>>) -> (r: Option<Self>)
        ensures
            match r {
                Some(e) => trn_matches(e, t.deep_view()),
                None => !trn_ok(t.deep_view()),
            },
    {
        let i = usize_at(t, 0)?;
        let f = real_at(t, 1)?;
        Some(TrnEntry { i, f })
    }
}

impl SmvObst {
    /// An obstruction from its two lines.
    pub fn new(half1: ObstFirstHalf, half2: ObstSecondHalf) -> (o: Self)
        ensures
            o == (SmvObst {
                xb_exact: half1.xb_exact,
                id: half1.blockage_id,
                surfaces: half1.surfaces,
                ijk: half2.ijk,
                colour_index: half2.color_index,
                block_type: half2.block_type,
            }),
    {
        SmvObst {
            xb_exact: half1.xb_exact,
            id: half1.blockage_id,
            surfaces: half1.surfaces,
            ijk: half2.ijk,
            colour_index: half2.color_index,
            block_type: half2.block_type,
        }
    }
}

impl SmvVent {
    /// A vent from its two lines.
    pub fn new(half1: VentFirstHalf, half2: VentSecondHalf) -> (v: Self)
        ensures
            v == (SmvVent {
                xb_exact: half1.xb_exact,
                vent_id: half1.vent_id,
                s_num: half1.s_num,
                texture_origin: half1.texture_origin,
                ijk: half2.ijk,
                vent_index: half2.vent_index,
                vent_type: half2.vent_type,
                color: half2.color,
            }),
    {
        SmvVent {
            xb_exact: half1.xb_exact,
            vent_id: half1.vent_id,
            s_num: half1.s_num,
            texture_origin: half1.texture_origin,
            ijk: half2.ijk,
            vent_index: half2.vent_index,
            vent_type: half2.vent_type,
            color: half2.color,
        }
    }
}

} // verus!
