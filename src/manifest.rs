//! The manifest: a line-oriented text file that describes a simulation's
//! meshes, obstructions, vents, surfaces and the files it wrote.
use vstd::prelude::*;
use crate::records::{
    GridRegion, ObstFirstHalf, ObstSecondHalf, Real, Rgbaf, Rgbf, SmvObst, SmvVent, TrnEntry,
    VentFirstHalf, VentSecondHalf, Xb, Xyz,
};

verus! {

/// Why a manifest could not be read.
#[derive(Clone, Copy, Debug, PartialEq, Eq, Structural)]
pub enum ParseSmvError {
    /// The line with this number (counted from 1, blank lines included)
    /// belongs to a recognised block and is malformed.
    BadLine(usize),
    /// The per-mesh lists do not all have one entry per mesh.
    MeshEntriesUnbalanced,
    /// No title block.
    MissingTitle,
    /// No case identifier block.
    MissingChid,
    /// No input file block.
    MissingInputFilename,
}

/// A surface definition.
#[derive(Clone, Debug, PartialEq)]
pub struct SmvSurface {
    pub name: String,
    pub ignition_temperature: Real,
    pub emissivity: Real,
    pub surface_type: i64,
    pub t_width: Real,
    pub t_height: Real,
    pub color: Rgbaf,
    pub texture_file: String,
}

/// The times of a tour.
#[derive(Clone, Debug, PartialEq)]
pub struct ViewTimes {
    pub tour_tstart: Real,
    pub tour_tstop: Real,
    pub tour_ntimes: usize,
}

/// A slice file entry: whether it is cell centred, the rest of its header
/// line, its file and its labels.
#[derive(Clone, Debug, PartialEq, Eq)]
pub struct Slcf {
    pub cell_centred: bool,
    pub vs: String,
    pub filename: String,
    pub long_name: String,
    pub short_name: String,
    pub units: String,
}

/// A particle file entry.
#[derive(Clone, Debug, PartialEq, Eq)]
pub struct Prt5 {
    pub n: usize,
    pub filename: String,
    pub a: i64,
    pub b: i64,
}

/// A boundary file entry.
#[derive(Clone, Debug, PartialEq, Eq)]
pub struct Bndf {
    pub a: u64,
    pub b: u64,
    pub filename: String,
    pub long_name: String,
    pub short_name: String,
    pub units: String,
}

/// The grid block of a mesh: its name and cell counts.
#[derive(Clone, Debug, PartialEq, Eq)]
pub struct GridBlock {
    pub name: String,
    pub i_bar: u64,
    pub j_bar: u64,
    pub k_bar: u64,
    pub mesh_type: u64,
}

/// The dimension block of a mesh: its bounding box and colour.
#[derive(Clone, Debug, PartialEq)]
pub struct PdimBlock {
    pub xb: Xb,
    pub color: Rgbf,
}

/// One mesh with everything that belongs to it.
#[derive(Clone, Debug, PartialEq)]
pub struct SmvMesh {
    pub name: String,
    pub i_bar: u64,
    pub j_bar: u64,
    pub k_bar: u64,
    pub mesh_type: u64,
    pub obsts: Vec<SmvObst>,
    pub vents: Vec<SmvVent>,
    pub trnx: Vec<TrnEntry>,
    pub trny: Vec<TrnEntry>,
    pub trnz: Vec<TrnEntry>,
    pub dims: Xb,
    pub color: Rgbf,
    pub offset: Xyz,
}

/// An axis of a coordinate-transform table.
#[derive(Clone, Copy, Debug, PartialEq, Eq, PartialOrd, Ord, Hash, Structural)]
pub enum Axis {
    X,
    Y,
    Z,
}

/// A timed event: mesh `n`, vent or obstruction `i`, at time `t`.
#[derive(Clone, Debug, PartialEq)]
pub enum SmvEvent {
    OpenVent { n: usize, i: usize, t: Real },
    CloseVent { n: usize, i: usize, t: Real },
    ShowObst { n: usize, i: usize, t: Real },
    HideObst { n: usize, i: usize, t: Real },
}

/// A device activation.
#[derive(Clone, Debug, PartialEq)]
pub struct SmvDeviceAct {
    pub name: String,
    pub n: usize,
    pub i: usize,
    pub v: Real,
}

/// A device definition.
#[derive(Clone, Debug, PartialEq)]
pub struct SmvDevice {
    pub name: String,
    pub quantity: String,
    pub p1: Xyz,
    pub p2: Xyz,
    pub ps: Option<(Xyz, Xyz)>,
    pub beam_type: String,
    pub state0: i32,
    pub nparams: i32,
}

/// The kind of a 3D smoke file.
#[derive(Clone, Copy, Debug, PartialEq, Eq, PartialOrd, Ord, Hash, Structural)]
pub enum Smoke3dType {
    F,
    G,
}

/// A 3D smoke file entry.
#[derive(Clone, Debug, PartialEq, Eq)]
pub struct Smoke3d {
    pub smoke_type: Smoke3dType,
    pub mesh: u64,
    pub file_name: String,
    pub long_name: String,
    pub short_name: String,
    pub units: String,
}

/// A catalog entry of a time-series table: its type tag and file name.
#[derive(Clone, Debug, PartialEq, Eq)]
pub struct CSVEntry {
    pub type_: String,
    pub filename: String,
}

/// A whole manifest.
#[derive(Clone, Debug)]
pub struct SmvFile {
    pub title: String,
    pub chid: String,
    pub input_filename: String,
    pub endf_filename: Option<String>,
    pub fds_version: Option<String>,
    pub surf_def: Option<String>,
    pub csvfs: Vec<CSVEntry>,
    pub meshes: Vec<SmvMesh>,
    pub surfs: Vec<SmvSurface>,
    pub xyzs: Vec<String>,
    pub solid_ht3d: Option<i64>,
    pub view_times: Option<ViewTimes>,
    pub albedo: Option<Real>,
    pub i_blank: Option<u64>,
    pub gvec: Option<Xyz>,
    pub events: Vec<SmvEvent>,
    pub device_acts: Vec<SmvDeviceAct>,
    pub slcfs: Vec<Slcf>,
    pub prt5s: Vec<Prt5>,
    pub bndfs: Vec<Bndf>,
    pub devcs: Vec<SmvDevice>,
    pub texture_origin: Option<Xyz>,
    /// The keywords of the blocks that were not recognised and passed over.
    pub unrecognized: Vec<String>,
}

/// What has been read of a manifest so far.
#[derive(Clone, Debug)]
pub struct PendingSmvFile {
    pub title: Option<String>,
    pub fds_version: Option<String>,
    pub revision: Option<String>,
    pub n_meshes: Option<u64>,
    pub input_filename: Option<String>,
    pub endf_filename: Option<String>,
    pub surf_def: Option<String>,
    pub view_times: Option<ViewTimes>,
    pub albedo: Option<Real>,
    pub i_blank: Option<u64>,
    pub gvec: Option<Xyz>,
    pub chid: Option<String>,
    pub csvfs: Vec<CSVEntry>,
    pub offsets: Vec<Xyz>,
    pub grids: Vec<GridBlock>,
    pub pdims: Vec<PdimBlock>,
    pub obsts: Vec<Vec<SmvObst>>,
    pub vents: Vec<Vec<SmvVent>>,
    pub surfs: Vec<SmvSurface>,
    pub events: Vec<SmvEvent>,
    pub prt5s: Vec<Prt5>,
    pub bndfs: Vec<Bndf>,
    pub devcs: Vec<SmvDevice>,
    pub device_acts: Vec<SmvDeviceAct>,
    pub xyzs: Vec<String>,
    pub slcfs: Vec<Slcf>,
    pub inpfs: Vec<String>,
    pub trnx: Vec<Vec<TrnEntry>>,
    pub trny: Vec<Vec<TrnEntry>>,
    pub trnz: Vec<Vec<TrnEntry>>,
    pub solid_ht3d: Option<i64>,
    pub texture_origin: Option<Xyz>,
    pub smoke_3d: Vec<Smoke3d>,
    pub unrecognized: Vec<String>,
}

impl PendingSmvFile {
    /// Nothing read yet.
    pub fn new() -> (r: Self)
        ensures
            r.is_empty(),
    {
        PendingSmvFile {
            title: None,
            fds_version: None,
            revision: None,
            n_meshes: None,
            input_filename: None,
            endf_filename: None,
            surf_def: None,
            view_times: None,
            albedo: None,
            i_blank: None,
            gvec: None,
            chid: None,
            csvfs: Vec::new(),
            offsets: Vec::new(),
            grids: Vec::new(),
            pdims: Vec::new(),
            obsts: Vec::new(),
            vents: Vec::new(),
            surfs: Vec::new(),
            events: Vec::new(),
            prt5s: Vec::new(),
            bndfs: Vec::new(),
            devcs: Vec::new(),
            device_acts: Vec::new(),
            xyzs: Vec::new(),
            slcfs: Vec::new(),
            inpfs: Vec::new(),
            trnx: Vec::new(),
            trny: Vec::new(),
            trnz: Vec::new(),
            solid_ht3d: None,
            texture_origin: None,
            smoke_3d: Vec::new(),
            unrecognized: Vec::new(),
        }
    }

    /// Nothing has been recorded.
    pub open spec fn is_empty(&self) -> bool {
        &&& self.title is None && self.fds_version is None && self.revision is None
        &&& self.n_meshes is None && self.input_filename is None && self.endf_filename is None
        &&& self.surf_def is None && self.view_times is None && self.albedo is None
        &&& self.i_blank is None && self.gvec is None && self.chid is None
        &&& self.solid_ht3d is None && self.texture_origin is None
        &&& self.csvfs@.len() == 0 && self.offsets@.len() == 0 && self.grids@.len() == 0
        &&& self.pdims@.len() == 0 && self.obsts@.len() == 0 && self.vents@.len() == 0
        &&& self.surfs@.len() == 0 && self.events@.len() == 0 && self.prt5s@.len() == 0
        &&& self.bndfs@.len() == 0 && self.devcs@.len() == 0 && self.device_acts@.len() == 0
        &&& self.xyzs@.len() == 0 && self.slcfs@.len() == 0 && self.inpfs@.len() == 0
        &&& self.trnx@.len() == 0 && self.trny@.len() == 0 && self.trnz@.len() == 0
        &&& self.smoke_3d@.len() == 0 && self.unrecognized@.len() == 0
    }

    /// Every per-mesh list has one entry for each grid block.
    pub open spec fn balanced(&self) -> bool {
        let n = self.grids@.len();
        &&& self.obsts@.len() == n && self.vents@.len() == n
        &&& self.trnx@.len() == n && self.trny@.len() == n && self.trnz@.len() == n
        &&& self.pdims@.len() == n && self.offsets@.len() == n
    }
}

} // verus!

verus! {

/// `m` is the mesh made of a grid block, its obstructions, vents, transform
/// tables, dimension block and offset.
pub open spec fn mesh_of(
    m: SmvMesh,
    grid: GridBlock,
    obsts: Vec<SmvObst>,
    vents: Vec<SmvVent>,
    trnx: Vec<TrnEntry>,
    trny: Vec<TrnEntry>,
    trnz: Vec<TrnEntry>,
    pdim: PdimBlock,
    offset: Xyz,
) -> bool {
    &&& m.name == grid.name && m.i_bar == grid.i_bar && m.j_bar == grid.j_bar
    &&& m.k_bar == grid.k_bar && m.mesh_type == grid.mesh_type
    &&& m.obsts == obsts && m.vents == vents
    &&& m.trnx == trnx && m.trny == trny && m.trnz == trnz
    &&& m.dims == pdim.xb && m.color == pdim.color && m.offset == offset
}

/// The mesh at index `i` of `f` is made of the entries at index `i` of each
/// per-mesh list of `p`.
pub open spec fn mesh_at(m: SmvMesh, p: PendingSmvFile, i: int) -> bool {
    mesh_of(
        m,
        p.grids@[i],
        p.obsts@[i],
        p.vents@[i],
        p.trnx@[i],
        p.trny@[i],
        p.trnz@[i],
        p.pdims@[i],
        p.offsets@[i],
    )
}

impl SmvMesh {
    pub fn new(
        grid: GridBlock,
        obsts: Vec<SmvObst>,
        vents: Vec<SmvVent>,
        trnx: Vec<TrnEntry>,
        trny: Vec<TrnEntry>,
        trnz: Vec<TrnEntry>,
        pdims: PdimBlock,
        offset: Xyz,
    ) -> (m: Self)
        ensures
            mesh_of(m, grid, obsts, vents, trnx, trny, trnz, pdims, offset),
    {
        SmvMesh {
            name: grid.name,
            i_bar: grid.i_bar,
            j_bar: grid.j_bar,
            k_bar: grid.k_bar,
            mesh_type: grid.mesh_type,
            obsts,
            vents,
            trnx,
            trny,
            trnz,
            dims: pdims.xb,
            color: pdims.color,
            offset,
        }
    }
}

/// The fields of `f` that `p` hands over as they are.
pub open spec fn carried_over(f: SmvFile, p: PendingSmvFile) -> bool {
    &&& f.endf_filename == p.endf_filename && f.fds_version == p.fds_version
    &&& f.surf_def == p.surf_def && f.csvfs == p.csvfs && f.surfs == p.surfs
    &&& f.xyzs == p.xyzs && f.solid_ht3d == p.solid_ht3d && f.view_times == p.view_times
    &&& f.albedo == p.albedo && f.i_blank == p.i_blank && f.gvec == p.gvec
    &&& f.events == p.events && f.device_acts == p.device_acts && f.slcfs == p.slcfs
    &&& f.prt5s == p.prt5s && f.bndfs == p.bndfs && f.devcs == p.devcs
    &&& f.texture_origin == p.texture_origin && f.unrecognized == p.unrecognized
}

/// The error that finishing `p` gives, if any.
pub open spec fn finish_error(p: PendingSmvFile) -> Option<ParseSmvError> {
    if !p.balanced() {
        Some(ParseSmvError::MeshEntriesUnbalanced)
    } else if p.title is None {
        Some(ParseSmvError::MissingTitle)
    } else if p.chid is None {
        Some(ParseSmvError::MissingChid)
    } else if p.input_filename is None {
        Some(ParseSmvError::MissingInputFilename)
    } else {
        None
    }
}

/// `r` is what finishing `p` gives: the error of `finish_error`, or the
/// manifest whose meshes are made of the entries at the same index of every
/// per-mesh list, and whose other fields are those of `p`.
pub open spec fn finished(p: PendingSmvFile, r: Result<SmvFile, ParseSmvError>) -> bool {
    match r {
        Ok(f) => {
            &&& finish_error(p) is None
            &&& p.title == Some(f.title) && p.chid == Some(f.chid)
            &&& p.input_filename == Some(f.input_filename)
            &&& f.meshes@.len() == p.grids@.len()
            &&& forall|i: int| 0 <= i < f.meshes@.len() ==> mesh_at(#[trigger] f.meshes@[i], p, i)
            &&& carried_over(f, p)
        },
        Err(e) => finish_error(p) == Some(e),
    }
}

impl SmvFile {
    /// Finishes a manifest: checks that every per-mesh list has one entry for
    /// each mesh and that the required blocks were there, and puts each
    /// mesh's entries together.
    pub fn try_from(p: PendingSmvFile) -> (r: Result<SmvFile, ParseSmvError>)
        ensures
            finished(p, r),
    {
        let n = p.grids.len();
        if p.obsts.len() != n || p.vents.len() != n || p.trnx.len() != n || p.trny.len() != n
            || p.trnz.len() != n || p.pdims.len() != n || p.offsets.len() != n {
            return Err(ParseSmvError::MeshEntriesUnbalanced);
        }
        if p.title.is_none() {
            return Err(ParseSmvError::MissingTitle);
        }
        if p.chid.is_none() {
            return Err(ParseSmvError::MissingChid);
        }
        if p.input_filename.is_none() {
            return Err(ParseSmvError::MissingInputFilename);
        }
        let ghost p0 = p;
        let mut grids = p.grids;
        let mut obsts = p.obsts;
        let mut vents = p.vents;
        let mut trnx = p.trnx;
        let mut trny = p.trny;
        let mut trnz = p.trnz;
        let mut pdims = p.pdims;
        let mut offsets = p.offsets;
        let mut rev: Vec<SmvMesh> = Vec::new();
        while grids.len() > 0
            invariant
                grids@ == p0.grids@.take(grids@.len() as int),
                obsts@ == p0.obsts@.take(grids@.len() as int),
                vents@ == p0.vents@.take(grids@.len() as int),
                trnx@ == p0.trnx@.take(grids@.len() as int),
                trny@ == p0.trny@.take(grids@.len() as int),
                trnz@ == p0.trnz@.take(grids@.len() as int),
                pdims@ == p0.pdims@.take(grids@.len() as int),
                offsets@ == p0.offsets@.take(grids@.len() as int),
                p0.balanced(),
                n == p0.grids@.len(),
                grids@.len() <= n,
                rev@.len() == n - grids@.len(),
                forall|j: int| 0 <= j < rev@.len() ==> mesh_at(#[trigger] rev@[j], p0, n - 1 - j),
            decreases grids@.len(),
        {
            let k = grids.len() - 1;
            let g = grids.pop().unwrap();
            let o = obsts.pop().unwrap();
            let v = vents.pop().unwrap();
            let tx = trnx.pop().unwrap();
            let ty = trny.pop().unwrap();
            let tz = trnz.pop().unwrap();
            let pd = pdims.pop().unwrap();
            let of = offsets.pop().unwrap();
            assert(grids@ =~= p0.grids@.take(k as int));
            assert(obsts@ =~= p0.obsts@.take(k as int));
            assert(vents@ =~= p0.vents@.take(k as int));
            assert(trnx@ =~= p0.trnx@.take(k as int));
            assert(trny@ =~= p0.trny@.take(k as int));
            assert(trnz@ =~= p0.trnz@.take(k as int));
            assert(pdims@ =~= p0.pdims@.take(k as int));
            assert(offsets@ =~= p0.offsets@.take(k as int));
            let m = SmvMesh::new(g, o, v, tx, ty, tz, pd, of);
            rev.push(m);
        }
        let mut meshes: Vec<SmvMesh> = Vec::new();
        while rev.len() > 0
            invariant
                p0.balanced(),
                n == p0.grids@.len(),
                rev@.len() + meshes@.len() == n,
                forall|j: int| 0 <= j < rev@.len() ==> mesh_at(#[trigger] rev@[j], p0, n - 1 - j),
                forall|j: int| 0 <= j < meshes@.len() ==> mesh_at(#[trigger] meshes@[j], p0, j),
            decreases rev@.len(),
        {
            let m = rev.pop().unwrap();
            meshes.push(m);
        }
        Ok(SmvFile {
            title: p.title.unwrap(),
            chid: p.chid.unwrap(),
            input_filename: p.input_filename.unwrap(),
            endf_filename: p.endf_filename,
            fds_version: p.fds_version,
            surf_def: p.surf_def,
            csvfs: p.csvfs,
            meshes,
            surfs: p.surfs,
            xyzs: p.xyzs,
            solid_ht3d: p.solid_ht3d,
            view_times: p.view_times,
            albedo: p.albedo,
            i_blank: p.i_blank,
            gvec: p.gvec,
            events: p.events,
            device_acts: p.device_acts,
            slcfs: p.slcfs,
            prt5s: p.prt5s,
            bndfs: p.bndfs,
            devcs: p.devcs,
            texture_origin: p.texture_origin,
            unrecognized: p.unrecognized,
        })
    }
}

} // verus!

verus! {

/// The coordinate that table `t` gives index `idx`: that of the first entry
/// with that index, if there is one.
pub open spec fn trn_lookup(t: Seq<TrnEntry>, idx: int, r: Option<Real>) -> bool {
    match r {
        Some(x) => exists|k: int|
            0 <= k < t.len() && t[k].i == idx && x.text@ == t[k].f.text@ && forall|j: int|
                0 <= j < k ==> t[j].i != idx,
        None => forall|k: int| 0 <= k < t.len() ==> t[k].i != idx,
    }
}

/// Looks up the coordinate of index `idx` in table `t`.
pub fn trn_find(t: &Vec<TrnEntry>, idx: i64) -> (r: Option<Real>)
    ensures
        trn_lookup(t@, idx as int, r),
{
    let mut k: usize = 0;
    while k < t.len()
        invariant
            k <= t@.len(),
            forall|j: int| 0 <= j < k ==> t@[j].i != idx,
        decreases t@.len() - k,
    {
        if idx >= 0 && t[k].i as u64 == idx as u64 {
            return Some(t[k].f.duplicate());
        }
        k = k + 1;
    }
    None
}

impl SmvMesh {
    /// The real box of a region of cells, each bound looked up by its exact
    /// index in the mesh's transform tables; `None` if one is missing.
    pub fn xb_from_grid(&self, ijk: GridRegion) -> (r: Option<Xb>)
        ensures
            match r {
                Some(b) => trn_lookup(self.trnx@, ijk.i1 as int, Some(b.x1)) && trn_lookup(
                    self.trnx@,
                    ijk.i2 as int,
                    Some(b.x2),
                ) && trn_lookup(self.trny@, ijk.j1 as int, Some(b.y1)) && trn_lookup(
                    self.trny@,
                    ijk.j2 as int,
                    Some(b.y2),
                ) && trn_lookup(self.trnz@, ijk.k1 as int, Some(b.z1)) && trn_lookup(
                    self.trnz@,
                    ijk.k2 as int,
                    Some(b.z2),
                ),
                None => trn_lookup(self.trnx@, ijk.i1 as int, None) || trn_lookup(
                    self.trnx@,
                    ijk.i2 as int,
                    None,
                ) || trn_lookup(self.trny@, ijk.j1 as int, None) || trn_lookup(
                    self.trny@,
                    ijk.j2 as int,
                    None,
                ) || trn_lookup(self.trnz@, ijk.k1 as int, None) || trn_lookup(
                    self.trnz@,
                    ijk.k2 as int,
                    None,
                ),
            },
    {
        let x1 = trn_find(&self.trnx, ijk.i1)?;
        let x2 = trn_find(&self.trnx, ijk.i2)?;
        let y1 = trn_find(&self.trny, ijk.j1)?;
        let y2 = trn_find(&self.trny, ijk.j2)?;
        let z1 = trn_find(&self.trnz, ijk.k1)?;
        let z2 = trn_find(&self.trnz, ijk.k2)?;
        Some(Xb { x1, x2, y1, y2, z1, z2 })
    }
}

} // verus!

verus! {

impl SmvFile {
    /// The position of the first catalog entry whose type tag is
    /// `csv_type`.
    pub fn find_csvf(&self, csv_type: &str) -> (r: Option<usize>)
        ensures
            match r {
                Some(i) => i < self.csvfs@.len() && self.csvfs@[i as int].type_@ == csv_type@
                    && forall|j: int| 0 <= j < i ==> self.csvfs@[j].type_@ != csv_type@,
                None => forall|j: int|
                    0 <= j < self.csvfs@.len() ==> self.csvfs@[j].type_@ != csv_type@,
            },
    {
        let mut i: usize = 0;
        while i < self.csvfs.len()
            invariant
                i <= self.csvfs@.len(),
                forall|j: int| 0 <= j < i ==> self.csvfs@[j].type_@ != csv_type@,
            decreases self.csvfs@.len() - i,
        {
            if crate::text::same_text(self.csvfs[i].type_.as_str(), csv_type) {
                return Some(i);
            }
            i = i + 1;
        }
        None
    }
}

} // verus!

verus! {

/// A field of the pending aggregate.
#[derive(Clone, Copy, Debug, PartialEq, Eq, Structural)]
pub enum PendingField {
    Title,
    FdsVersion,
    Revision,
    NMeshes,
    InputFilename,
    EndfFilename,
    SurfDef,
    ViewTimes,
    Albedo,
    IBlank,
    Gvec,
    Chid,
    Csvfs,
    Offsets,
    Grids,
    Pdims,
    Obsts,
    Vents,
    Surfs,
    Events,
    Prt5s,
    Bndfs,
    Devcs,
    DeviceActs,
    Xyzs,
    Slcfs,
    Inpfs,
    Trnx,
    Trny,
    Trnz,
    SolidHt3d,
    TextureOrigin,
    Smoke3d,
    Unrecognized,
}

impl PendingSmvFile {
    /// `self` and `o` agree on every field but `f`.
    pub open spec fn same_except(&self, o: &PendingSmvFile, f: PendingField) -> bool {
        &&& (f != PendingField::Title ==> self.title == o.title)
        &&& (f != PendingField::FdsVersion ==> self.fds_version == o.fds_version)
        &&& (f != PendingField::Revision ==> self.revision == o.revision)
        &&& (f != PendingField::NMeshes ==> self.n_meshes == o.n_meshes)
        &&& (f != PendingField::InputFilename ==> self.input_filename == o.input_filename)
        &&& (f != PendingField::EndfFilename ==> self.endf_filename == o.endf_filename)
        &&& (f != PendingField::SurfDef ==> self.surf_def == o.surf_def)
        &&& (f != PendingField::ViewTimes ==> self.view_times == o.view_times)
        &&& (f != PendingField::Albedo ==> self.albedo == o.albedo)
        &&& (f != PendingField::IBlank ==> self.i_blank == o.i_blank)
        &&& (f != PendingField::Gvec ==> self.gvec == o.gvec)
        &&& (f != PendingField::Chid ==> self.chid == o.chid)
        &&& (f != PendingField::Csvfs ==> self.csvfs == o.csvfs)
        &&& (f != PendingField::Offsets ==> self.offsets == o.offsets)
        &&& (f != PendingField::Grids ==> self.grids == o.grids)
        &&& (f != PendingField::Pdims ==> self.pdims == o.pdims)
        &&& (f != PendingField::Obsts ==> self.obsts == o.obsts)
        &&& (f != PendingField::Vents ==> self.vents == o.vents)
        &&& (f != PendingField::Surfs ==> self.surfs == o.surfs)
        &&& (f != PendingField::Events ==> self.events == o.events)
        &&& (f != PendingField::Prt5s ==> self.prt5s == o.prt5s)
        &&& (f != PendingField::Bndfs ==> self.bndfs == o.bndfs)
        &&& (f != PendingField::Devcs ==> self.devcs == o.devcs)
        &&& (f != PendingField::DeviceActs ==> self.device_acts == o.device_acts)
        &&& (f != PendingField::Xyzs ==> self.xyzs == o.xyzs)
        &&& (f != PendingField::Slcfs ==> self.slcfs == o.slcfs)
        &&& (f != PendingField::Inpfs ==> self.inpfs == o.inpfs)
        &&& (f != PendingField::Trnx ==> self.trnx == o.trnx)
        &&& (f != PendingField::Trny ==> self.trny == o.trny)
        &&& (f != PendingField::Trnz ==> self.trnz == o.trnz)
        &&& (f != PendingField::SolidHt3d ==> self.solid_ht3d == o.solid_ht3d)
        &&& (f != PendingField::TextureOrigin ==> self.texture_origin == o.texture_origin)
        &&& (f != PendingField::Smoke3d ==> self.smoke_3d == o.smoke_3d)
        &&& (f != PendingField::Unrecognized ==> self.unrecognized == o.unrecognized)
    }

    /// `self` and `o` agree on every field.
    pub open spec fn same(&self, o: &PendingSmvFile) -> bool {
        &&& self.same_except(o, PendingField::Title)
        &&& self.title == o.title
    }
}

} // verus!

verus! {

/// In a manifest that was finished successfully, every per-mesh list (grid
/// blocks, obstructions, vents, the three transform tables, dimension blocks
/// and offsets) has exactly one entry per mesh, and each mesh is made of the
/// entries at its own index.
pub proof fn lemma_per_mesh_lists_aligned(p: PendingSmvFile, f: SmvFile)
    requires
        finished(p, Ok(f)),
    ensures
        f.meshes@.len() == p.grids@.len(),
        f.meshes@.len() == p.obsts@.len(),
        f.meshes@.len() == p.vents@.len(),
        f.meshes@.len() == p.trnx@.len(),
        f.meshes@.len() == p.trny@.len(),
        f.meshes@.len() == p.trnz@.len(),
        f.meshes@.len() == p.pdims@.len(),
        f.meshes@.len() == p.offsets@.len(),
        forall|i: int|
            0 <= i < f.meshes@.len() ==> {
                &&& (#[trigger] f.meshes@[i]).obsts == p.obsts@[i]
                &&& f.meshes@[i].vents == p.vents@[i]
                &&& f.meshes@[i].trnx == p.trnx@[i]
                &&& f.meshes@[i].trny == p.trny@[i]
                &&& f.meshes@[i].trnz == p.trnz@[i]
                &&& f.meshes@[i].dims == p.pdims@[i].xb
                &&& f.meshes@[i].offset == p.offsets@[i]
            },
{
    assert forall|i: int| 0 <= i < f.meshes@.len() implies {
        &&& (#[trigger] f.meshes@[i]).obsts == p.obsts@[i]
        &&& f.meshes@[i].vents == p.vents@[i]
        &&& f.meshes@[i].trnx == p.trnx@[i]
        &&& f.meshes@[i].trny == p.trny@[i]
        &&& f.meshes@[i].trnz == p.trnz@[i]
        &&& f.meshes@[i].dims == p.pdims@[i].xb
        &&& f.meshes@[i].offset == p.offsets@[i]
    } by {
        assert(mesh_at(f.meshes@[i], p, i));
    }
}

} // verus!
