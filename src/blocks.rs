//! The block state machine that reads a manifest line by line.
use vstd::prelude::*;
use vstd::string::StringSliceAdditionalSpecFns;
use crate::manifest::{
    PendingField, Axis, Bndf, CSVEntry, GridBlock, ParseSmvError, PdimBlock, PendingSmvFile, Prt5, Slcf,
    Smoke3d, Smoke3dType, SmvDevice, SmvDeviceAct, SmvEvent, SmvFile, SmvSurface, ViewTimes,
};
use crate::records::{
    rgbaf_from, rgbf_from, xb_from, xyz_from, i32_at, i64_at, real_at, u64_at, usize_at,
    ObstFirstHalf, ObstSecondHalf, Real, Rgbaf, SmvObst, SmvVent, TrnEntry, VentFirstHalf,
    VentSecondHalf,
};
use crate::records::{
    i64_tok, is_real_tok, obst_first_matches, obst_first_ok, obst_second_matches, obst_second_ok,
    real_tok, rgbaf_at, rgbaf_ok, unsigned_tok, vent_first_matches, vent_first_ok,
    vent_second_matches, vent_second_ok,
    signed_at, signed_tok,
    rgbf_at, trn_matches, trn_ok, u64_tok, unsigned_at, xb_at, xb_ok, xyz_at, xyz_ok,
};
use crate::text::{
    word_len, is_real, signed_of, unsigned_of,
    split_ws, is_space, lossy_text, space, split_whitespace, text_from_bytes, token_i64, token_u64,
    token_usize, trim, trim_span,
};

verus! {

/// Whether the bytes `k` are the ASCII keyword `word`.
pub fn keyword_is(k: &[u8], word: &str) -> (r: bool)
    ensures
        r == (k@ == word.spec_bytes()),
{
    let w = word.as_bytes();
    if k.len() != w.len() {
        return false;
    }
    let mut i: usize = 0;
    while i < k.len()
        invariant
            k@.len() == w@.len(),
            w@ == word.spec_bytes(),
            i <= k@.len(),
            forall|j: int| 0 <= j < i ==> k@[j] == w@[j],
        decreases k@.len() - i,
    {
        if k[i] != w[i] {
            return false;
        }
        i = i + 1;
    }
    assert(k@ =~= w@);
    true
}

/// `s` without one leading space, if it has one.
pub open spec fn strip_space(s: Seq<u8>) -> Seq<u8> {
    if s.len() > 0 && s[0] == 32 {
        s.drop_first()
    } else {
        s
    }
}

/// The text of `s` without one leading space.
pub fn text_after_space(s: &[u8]) -> (r: String)
    ensures
        r@ == lossy_text(strip_space(s@)),
{
    if s.len() > 0 && s[0] == 32 {
        let t = &s[1..s.len()];
        assert(t@ =~= s@.drop_first());
        text_from_bytes(t)
    } else {
        text_from_bytes(s)
    }
}

/// The text of `s` without the spaces at either end.
pub fn trimmed_text(s: &[u8]) -> (r: String)
    ensures
        r@ == lossy_text(trim(s@)),
{
    let (a, b) = trim_span(s);
    text_from_bytes(&s[a..b])
}

/// The bytes of `s` without the spaces at either end.
pub fn trimmed(s: &[u8]) -> (r: &[u8])
    ensures
        r@ == trim(s@),
{
    let (a, b) = trim_span(s);
    &s[a..b]
}

/// The kind of a timed event block.
#[derive(Clone, Copy, Debug, PartialEq, Eq, Structural)]
pub enum EventKind {
    OpenVent,
    CloseVent,
    ShowObst,
    HideObst,
}

/// What the next body line means: one variant for each record type, some
/// split into stages because each group of fields has a line of its own.
pub enum ParserState {
    /// No block is active: the next line should name one.
    Idle,
    TitleBlock,
    FdsVersion1,
    FdsVersion2,
    Revision,
    NMeshes,
    ViewTimes,
    Albedo,
    IBlank,
    GVec,
    /// A block whose one body line is passed over.
    Ignored,
    TOffset,
    Device1,
    Device2(String, String),
    Offset,
    Grid(String),
    Pdim,
    Vent1,
    Vent2(usize, Vec<VentFirstHalf>, usize, Vec<VentFirstHalf>),
    Vent3(
        usize,
        Vec<VentFirstHalf>,
        Vec<VentSecondHalf>,
        usize,
        Vec<VentFirstHalf>,
        Vec<VentSecondHalf>,
    ),
    /// A 3D smoke entry: its type, mesh, and the labels read so far.
    Smoke3d(Smoke3dType, u64, Vec<String>),
    /// A boundary file entry: its two header numbers and the labels read so
    /// far.
    Bndf(u64, u64, Vec<String>),
    /// A slice file entry: cell centred or not, the rest of its header line,
    /// and the labels read so far.
    Slcf(bool, String, Vec<String>),
    Prt51(usize),
    Prt52(usize, String),
    Prt53(usize, String, i64),
    DeviceAct(String),
    ChidBlock,
    SolidHt3d,
    CsvfBlock1,
    CsvfBlock2(String),
    InpfBlock,
    Endf,
    SurfDef,
    ObstBlock1,
    ObstBlock2(usize, Vec<ObstFirstHalf>),
    ObstBlock3(usize, Vec<ObstFirstHalf>, Vec<ObstSecondHalf>),
    Surface1,
    Surface2(String),
    Surface3(String, Real, Real),
    Surface4(String, Real, Real, i64, Real, Real, Rgbaf),
    Trn1(Axis),
    Trn2(Axis, usize, Vec<TrnEntry>),
    Xyz,
    Event(EventKind, usize),
}

/// The index of the first space byte of `s`, or its length.
fn first_space(s: &[u8]) -> (r: usize)
    ensures
        r <= s@.len(),
        r == word_len(s@),
{
    let mut i: usize = 0;
    assert(s@.skip(0) =~= s@);
    while i < s.len() && !space(s[i])
        invariant
            i <= s@.len(),
            word_len(s@) == i + word_len(s@.skip(i as int)),
        decreases s@.len() - i,
    {
        assert(s@.skip(i as int).drop_first() =~= s@.skip(i + 1));
        i = i + 1;
    }
    i
}

/// The trimmed line `s` is an unsigned integer at most `hi`.
pub open spec fn whole_unsigned(s: Seq<u8>, hi: int) -> bool {
    unsigned_of(trim(s)) is Some && unsigned_of(trim(s))->0 <= hi
}

/// The trimmed line `s` is a signed integer that fits in an `i64`.
pub open spec fn whole_signed(s: Seq<u8>) -> bool {
    signed_of(trim(s)) is Some && i64::MIN <= signed_of(trim(s))->0 <= i64::MAX
}

/// The whole of `s`, less the spaces at either end, as one unsigned number.
fn whole_usize(s: &[u8]) -> (r: Option<usize>)
    ensures
        match r {
            Some(x) => whole_unsigned(s@, usize::MAX as int) && unsigned_of(trim(s@))->0 == x,
            None => !whole_unsigned(s@, usize::MAX as int),
        },
{
    token_usize(trimmed(s))
}

fn whole_u64(s: &[u8]) -> (r: Option<u64>)
    ensures
        match r {
            Some(x) => whole_unsigned(s@, u64::MAX as int) && unsigned_of(trim(s@))->0 == x,
            None => !whole_unsigned(s@, u64::MAX as int),
        },
{
    token_u64(trimmed(s))
}

fn whole_i64(s: &[u8]) -> (r: Option<i64>)
    ensures
        match r {
            Some(x) => whole_signed(s@) && signed_of(trim(s@))->0 == x,
            None => !whole_signed(s@),
        },
{
    token_i64(trimmed(s))
}

/// The state that a header line with keyword `name` and the rest of the
/// line `rem` starts (`Ok(None)` for a keyword that is not recognised).
pub open spec fn start_step(name: Seq<u8>, rem: Seq<u8>, r: Result<Option<ParserState>, ()>) -> bool {
    if name == "TITLE".spec_bytes() {
        r == Ok::<Option<ParserState>, ()>(Some(ParserState::TitleBlock))
    } else if name == "FDSVERSION".spec_bytes() {
        r == Ok::<Option<ParserState>, ()>(Some(ParserState::FdsVersion1))
    } else if name == "REVISION".spec_bytes() {
        r == Ok::<Option<ParserState>, ()>(Some(ParserState::Revision))
    } else if name == "CHID".spec_bytes() {
        r == Ok::<Option<ParserState>, ()>(Some(ParserState::ChidBlock))
    } else if name == "NMESHES".spec_bytes() {
        r == Ok::<Option<ParserState>, ()>(Some(ParserState::NMeshes))
    } else if name == "VIEWTIMES".spec_bytes() {
        r == Ok::<Option<ParserState>, ()>(Some(ParserState::ViewTimes))
    } else if name == "ALBEDO".spec_bytes() {
        r == Ok::<Option<ParserState>, ()>(Some(ParserState::Albedo))
    } else if name == "IBLANK".spec_bytes() {
        r == Ok::<Option<ParserState>, ()>(Some(ParserState::IBlank))
    } else if name == "GVEC".spec_bytes() {
        r == Ok::<Option<ParserState>, ()>(Some(ParserState::GVec))
    } else if name == "MATERIAL".spec_bytes() || name == "CLASS_OF_PARTICLES".spec_bytes() || name == "OUTLINE".spec_bytes() || name == "HRRPUVCUT".spec_bytes() || name == "RAMP".spec_bytes() || name == "PROP".spec_bytes() || name == "CVENT".spec_bytes() || name == "PL3D".spec_bytes() {
        r == Ok::<Option<ParserState>, ()>(Some(ParserState::Ignored))
    } else if name == "TOFFSET".spec_bytes() {
        r == Ok::<Option<ParserState>, ()>(Some(ParserState::TOffset))
    } else if name == "ENDF".spec_bytes() {
        r == Ok::<Option<ParserState>, ()>(Some(ParserState::Endf))
    } else if name == "SURFDEF".spec_bytes() {
        r == Ok::<Option<ParserState>, ()>(Some(ParserState::SurfDef))
    } else if name == "DEVICE".spec_bytes() {
        r == Ok::<Option<ParserState>, ()>(Some(ParserState::Device1))
    } else if name == "OFFSET".spec_bytes() {
        r == Ok::<Option<ParserState>, ()>(Some(ParserState::Offset))
    } else if name == "GRID".spec_bytes() {
        if rem.len() > 0 && rem[0] == 32 {
            r matches Ok(Some(ParserState::Grid(x))) && x@ == lossy_text(rem)
        } else {
            r is Err
        }
    } else if name == "PDIM".spec_bytes() {
        r == Ok::<Option<ParserState>, ()>(Some(ParserState::Pdim))
    } else if name == "VENT".spec_bytes() {
        r == Ok::<Option<ParserState>, ()>(Some(ParserState::Vent1))
    } else if name == "SMOKF3D".spec_bytes() {
        if whole_unsigned(rem, u64::MAX as int) {
            r matches Ok(Some(ParserState::Smoke3d(ty, n, l))) && ty == Smoke3dType::F && n
                == unsigned_of(trim(rem))->0 && l@.len() == 0
        } else {
            r is Err
        }
    } else if name == "SMOKG3D".spec_bytes() {
        if whole_unsigned(rem, u64::MAX as int) {
            r matches Ok(Some(ParserState::Smoke3d(ty, n, l))) && ty == Smoke3dType::G && n
                == unsigned_of(trim(rem))->0 && l@.len() == 0
        } else {
            r is Err
        }
    } else if name == "SLCC".spec_bytes() {
        r matches Ok(Some(ParserState::Slcf(c, x, l))) && c == true && x@ == lossy_text(rem)
            && l@.len() == 0
    } else if name == "SLCF".spec_bytes() {
        r matches Ok(Some(ParserState::Slcf(c, x, l))) && c == false && x@ == lossy_text(rem)
            && l@.len() == 0
    } else if name == "BNDF".spec_bytes() {
        if u64_tok(split_ws(rem), 0) && u64_tok(split_ws(rem), 1) {
            r matches Ok(Some(ParserState::Bndf(a, b, l))) && a == unsigned_at(split_ws(rem), 0)
                && b == unsigned_at(split_ws(rem), 1) && l@.len() == 0
        } else {
            r is Err
        }
    } else if name == "PRT5".spec_bytes() {
        if whole_unsigned(rem, usize::MAX as int) {
            r matches Ok(Some(ParserState::Prt51(n))) && n == unsigned_of(trim(rem))->0
        } else {
            r is Err
        }
    } else if name == "DEVICE_ACT".spec_bytes() {
        r matches Ok(Some(ParserState::DeviceAct(x))) && x@ == lossy_text(rem)
    } else if name == "CSVF".spec_bytes() {
        r == Ok::<Option<ParserState>, ()>(Some(ParserState::CsvfBlock1))
    } else if name == "INPF".spec_bytes() {
        r == Ok::<Option<ParserState>, ()>(Some(ParserState::InpfBlock))
    } else if name == "OBST".spec_bytes() {
        r == Ok::<Option<ParserState>, ()>(Some(ParserState::ObstBlock1))
    } else if name == "TRNX".spec_bytes() {
        r == Ok::<Option<ParserState>, ()>(Some(ParserState::Trn1(Axis::X)))
    } else if name == "TRNY".spec_bytes() {
        r == Ok::<Option<ParserState>, ()>(Some(ParserState::Trn1(Axis::Y)))
    } else if name == "TRNZ".spec_bytes() {
        r == Ok::<Option<ParserState>, ()>(Some(ParserState::Trn1(Axis::Z)))
    } else if name == "SURFACE".spec_bytes() {
        r == Ok::<Option<ParserState>, ()>(Some(ParserState::Surface1))
    } else if name == "SOLID_HT3D".spec_bytes() {
        r == Ok::<Option<ParserState>, ()>(Some(ParserState::SolidHt3d))
    } else if name == "XYZ".spec_bytes() {
        r == Ok::<Option<ParserState>, ()>(Some(ParserState::Xyz))
    } else if name == "CLOSE_VENT".spec_bytes() {
        if whole_unsigned(rem, usize::MAX as int) {
            r matches Ok(Some(ParserState::Event(kind, n))) && kind == EventKind::CloseVent && n
                == unsigned_of(trim(rem))->0
        } else {
            r is Err
        }
    } else if name == "OPEN_VENT".spec_bytes() {
        if whole_unsigned(rem, usize::MAX as int) {
            r matches Ok(Some(ParserState::Event(kind, n))) && kind == EventKind::OpenVent && n
                == unsigned_of(trim(rem))->0
        } else {
            r is Err
        }
    } else if name == "HIDE_OBST".spec_bytes() {
        if whole_unsigned(rem, usize::MAX as int) {
            r matches Ok(Some(ParserState::Event(kind, n))) && kind == EventKind::HideObst && n
                == unsigned_of(trim(rem))->0
        } else {
            r is Err
        }
    } else if name == "SHOW_OBST".spec_bytes() {
        if whole_unsigned(rem, usize::MAX as int) {
            r matches Ok(Some(ParserState::Event(kind, n))) && kind == EventKind::ShowObst && n
                == unsigned_of(trim(rem))->0
        } else {
            r is Err
        }
    } else {
        r == Ok::<Option<ParserState>, ()>(None)
    }
}

/// The block keywords that the reader recognises.
pub open spec fn known_keyword(k: Seq<u8>) -> bool {
    k == "TITLE".spec_bytes()
    || k == "FDSVERSION".spec_bytes()
    || k == "REVISION".spec_bytes()
    || k == "CHID".spec_bytes()
    || k == "NMESHES".spec_bytes()
    || k == "VIEWTIMES".spec_bytes()
    || k == "ALBEDO".spec_bytes()
    || k == "IBLANK".spec_bytes()
    || k == "GVEC".spec_bytes()
    || k == "MATERIAL".spec_bytes()
    || k == "CLASS_OF_PARTICLES".spec_bytes()
    || k == "OUTLINE".spec_bytes()
    || k == "HRRPUVCUT".spec_bytes()
    || k == "RAMP".spec_bytes()
    || k == "PROP".spec_bytes()
    || k == "CVENT".spec_bytes()
    || k == "PL3D".spec_bytes()
    || k == "TOFFSET".spec_bytes()
    || k == "ENDF".spec_bytes()
    || k == "SURFDEF".spec_bytes()
    || k == "DEVICE".spec_bytes()
    || k == "OFFSET".spec_bytes()
    || k == "GRID".spec_bytes()
    || k == "PDIM".spec_bytes()
    || k == "VENT".spec_bytes()
    || k == "SMOKF3D".spec_bytes()
    || k == "SMOKG3D".spec_bytes()
    || k == "SLCC".spec_bytes()
    || k == "SLCF".spec_bytes()
    || k == "BNDF".spec_bytes()
    || k == "PRT5".spec_bytes()
    || k == "DEVICE_ACT".spec_bytes()
    || k == "CSVF".spec_bytes()
    || k == "INPF".spec_bytes()
    || k == "OBST".spec_bytes()
    || k == "TRNX".spec_bytes()
    || k == "TRNY".spec_bytes()
    || k == "TRNZ".spec_bytes()
    || k == "SURFACE".spec_bytes()
    || k == "SOLID_HT3D".spec_bytes()
    || k == "XYZ".spec_bytes()
    || k == "CLOSE_VENT".spec_bytes()
    || k == "OPEN_VENT".spec_bytes()
    || k == "HIDE_OBST".spec_bytes()
    || k == "SHOW_OBST".spec_bytes()
}

/// The keywords whose header line carries parameters that must be well
/// formed.
pub open spec fn parametrized_keyword(k: Seq<u8>) -> bool {
    k == "GRID".spec_bytes()
    || k == "SMOKF3D".spec_bytes()
    || k == "SMOKG3D".spec_bytes()
    || k == "BNDF".spec_bytes()
    || k == "PRT5".spec_bytes()
    || k == "CLOSE_VENT".spec_bytes()
    || k == "OPEN_VENT".spec_bytes()
    || k == "HIDE_OBST".spec_bytes()
    || k == "SHOW_OBST".spec_bytes()
}

/// The state that a block header line starts: `Ok(None)` for a keyword that
/// is not recognised, `Err` where the parameters on the line are malformed.
pub fn start_block(name: &[u8], remainder: &[u8]) -> (r: Result<Option<ParserState>, ()>)
    ensures
        r matches Ok(Some(s)) ==> s.wf(),
        start_step(name@, remainder@, r),
        r == Ok::<Option<ParserState>, ()>(None) <==> !known_keyword(name@),
        r is Err ==> parametrized_keyword(name@),
{
    let state = if keyword_is(name, "TITLE") {
        ParserState::TitleBlock
    } else if keyword_is(name, "FDSVERSION") {
        ParserState::FdsVersion1
    } else if keyword_is(name, "REVISION") {
        ParserState::Revision
    } else if keyword_is(name, "CHID") {
        ParserState::ChidBlock
    } else if keyword_is(name, "NMESHES") {
        ParserState::NMeshes
    } else if keyword_is(name, "VIEWTIMES") {
        ParserState::ViewTimes
    } else if keyword_is(name, "ALBEDO") {
        ParserState::Albedo
    } else if keyword_is(name, "IBLANK") {
        ParserState::IBlank
    } else if keyword_is(name, "GVEC") {
        ParserState::GVec
    } else if keyword_is(name, "MATERIAL") || keyword_is(name, "CLASS_OF_PARTICLES")
        || keyword_is(name, "OUTLINE") || keyword_is(name, "HRRPUVCUT") || keyword_is(
        name,
        "RAMP",
    ) || keyword_is(name, "PROP") || keyword_is(name, "CVENT") || keyword_is(name, "PL3D") {
        ParserState::Ignored
    } else if keyword_is(name, "TOFFSET") {
        ParserState::TOffset
    } else if keyword_is(name, "ENDF") {
        ParserState::Endf
    } else if keyword_is(name, "SURFDEF") {
        ParserState::SurfDef
    } else if keyword_is(name, "DEVICE") {
        ParserState::Device1
    } else if keyword_is(name, "OFFSET") {
        ParserState::Offset
    } else if keyword_is(name, "GRID") {
        if remainder.len() == 0 || remainder[0] != 32 {
            return Err(());
        }
        ParserState::Grid(text_from_bytes(remainder))
    } else if keyword_is(name, "PDIM") {
        ParserState::Pdim
    } else if keyword_is(name, "VENT") {
        ParserState::Vent1
    } else if keyword_is(name, "SMOKF3D") {
        match whole_u64(remainder) {
            Some(n) => ParserState::Smoke3d(Smoke3dType::F, n, Vec::new()),
            None => return Err(()),
        }
    } else if keyword_is(name, "SMOKG3D") {
        match whole_u64(remainder) {
            Some(n) => ParserState::Smoke3d(Smoke3dType::G, n, Vec::new()),
            None => return Err(()),
        }
    } else if keyword_is(name, "SLCC") {
        ParserState::Slcf(true, text_from_bytes(remainder), Vec::new())
    } else if keyword_is(name, "SLCF") {
        ParserState::Slcf(false, text_from_bytes(remainder), Vec::new())
    } else if keyword_is(name, "BNDF") {
        let t = split_whitespace(remainder);
        match (u64_at(&t, 0), u64_at(&t, 1)) {
            (Some(a), Some(b)) => ParserState::Bndf(a, b, Vec::new()),
            _ => return Err(()),
        }
    } else if keyword_is(name, "PRT5") {
        match whole_usize(remainder) {
            Some(n) => ParserState::Prt51(n),
            None => return Err(()),
        }
    } else if keyword_is(name, "DEVICE_ACT") {
        ParserState::DeviceAct(text_from_bytes(remainder))
    } else if keyword_is(name, "CSVF") {
        ParserState::CsvfBlock1
    } else if keyword_is(name, "INPF") {
        ParserState::InpfBlock
    } else if keyword_is(name, "OBST") {
        ParserState::ObstBlock1
    } else if keyword_is(name, "TRNX") {
        ParserState::Trn1(Axis::X)
    } else if keyword_is(name, "TRNY") {
        ParserState::Trn1(Axis::Y)
    } else if keyword_is(name, "TRNZ") {
        ParserState::Trn1(Axis::Z)
    } else if keyword_is(name, "SURFACE") {
        ParserState::Surface1
    } else if keyword_is(name, "SOLID_HT3D") {
        ParserState::SolidHt3d
    } else if keyword_is(name, "XYZ") {
        ParserState::Xyz
    } else if keyword_is(name, "CLOSE_VENT") || keyword_is(name, "OPEN_VENT") || keyword_is(
        name,
        "HIDE_OBST",
    ) || keyword_is(name, "SHOW_OBST") {
        let kind = if keyword_is(name, "CLOSE_VENT") {
            EventKind::CloseVent
        } else if keyword_is(name, "OPEN_VENT") {
            EventKind::OpenVent
        } else if keyword_is(name, "HIDE_OBST") {
            EventKind::HideObst
        } else {
            EventKind::ShowObst
        };
        match whole_usize(remainder) {
            Some(n) => ParserState::Event(kind, n),
            None => return Err(()),
        }
    } else {
        return Ok(None);
    };
    Ok(Some(state))
}

} // verus!

verus! {

/// `v` in the opposite order.
pub fn reversed<T>(v: Vec<T>) -> (r: Vec<T>)
    ensures
        r@ == v@.reverse(),
{
    let ghost v0 = v@;
    let mut v = v;
    let mut r: Vec<T> = Vec::new();
    while v.len() > 0
        invariant
            v@.len() <= v0.len(),
            v@ == v0.take(v@.len() as int),
            r@ == v0.skip(v@.len() as int).reverse(),
        decreases v@.len(),
    {
        let k = v.len() - 1;
        let x = v.pop().unwrap();
        assert(v@ =~= v0.take(k as int));
        assert(r@.push(x) =~= v0.skip(k as int).reverse());
        r.push(x);
    }
    assert(v0.skip(0) =~= v0);
    r
}

/// The obstruction made of the `k`-th lines of both passes.
pub open spec fn obst_paired(o: SmvObst, a: ObstFirstHalf, b: ObstSecondHalf) -> bool {
    o == (SmvObst {
        xb_exact: a.xb_exact,
        id: a.blockage_id,
        surfaces: a.surfaces,
        ijk: b.ijk,
        colour_index: b.color_index,
        block_type: b.block_type,
    })
}

/// The vent made of the `k`-th lines of both passes.
pub open spec fn vent_paired(v: SmvVent, a: VentFirstHalf, b: VentSecondHalf) -> bool {
    v == (SmvVent {
        xb_exact: a.xb_exact,
        vent_id: a.vent_id,
        s_num: a.s_num,
        texture_origin: a.texture_origin,
        ijk: b.ijk,
        vent_index: b.vent_index,
        vent_type: b.vent_type,
        color: b.color,
    })
}

/// Pairs the lines of both passes of an obstruction block by position.
pub fn pair_obsts(a: Vec<ObstFirstHalf>, b: Vec<ObstSecondHalf>) -> (r: Vec<SmvObst>)
    requires
        a@.len() == b@.len(),
    ensures
        r@.len() == a@.len(),
        forall|k: int| 0 <= k < r@.len() ==> obst_paired(#[trigger] r@[k], a@[k], b@[k]),
{
    let ghost a0 = a@;
    let ghost b0 = b@;
    let mut a = a;
    let mut b = b;
    let mut rev: Vec<SmvObst> = Vec::new();
    while a.len() > 0
        invariant
            a@.len() == b@.len(),
            a@.len() <= a0.len(),
            a@ == a0.take(a@.len() as int),
            b@ == b0.take(b@.len() as int),
            a0.len() == b0.len(),
            rev@.len() == a0.len() - a@.len(),
            forall|j: int|
                0 <= j < rev@.len() ==> obst_paired(
                    #[trigger] rev@[j],
                    a0[a0.len() - 1 - j],
                    b0[b0.len() - 1 - j],
                ),
        decreases a@.len(),
    {
        let k = a.len() - 1;
        let x = a.pop().unwrap();
        let y = b.pop().unwrap();
        assert(a@ =~= a0.take(k as int));
        assert(b@ =~= b0.take(k as int));
        rev.push(SmvObst::new(x, y));
    }
    reversed(rev)
}

/// Pairs the lines of both passes of a vent block by position.
pub fn pair_vents(a: Vec<VentFirstHalf>, b: Vec<VentSecondHalf>) -> (r: Vec<SmvVent>)
    requires
        a@.len() == b@.len(),
    ensures
        r@.len() == a@.len(),
        forall|k: int| 0 <= k < r@.len() ==> vent_paired(#[trigger] r@[k], a@[k], b@[k]),
{
    let ghost a0 = a@;
    let ghost b0 = b@;
    let mut a = a;
    let mut b = b;
    let mut rev: Vec<SmvVent> = Vec::new();
    while a.len() > 0
        invariant
            a@.len() == b@.len(),
            a@.len() <= a0.len(),
            a@ == a0.take(a@.len() as int),
            b@ == b0.take(b@.len() as int),
            a0.len() == b0.len(),
            rev@.len() == a0.len() - a@.len(),
            forall|j: int|
                0 <= j < rev@.len() ==> vent_paired(
                    #[trigger] rev@[j],
                    a0[a0.len() - 1 - j],
                    b0[b0.len() - 1 - j],
                ),
        decreases a@.len(),
    {
        let k = a.len() - 1;
        let x = a.pop().unwrap();
        let y = b.pop().unwrap();
        assert(a@ =~= a0.take(k as int));
        assert(b@ =~= b0.take(k as int));
        rev.push(SmvVent::new(x, y));
    }
    reversed(rev)
}

} // verus!

verus! {

/// The value in `o`, or a malformed line.
fn need<T>(o: Option<T>) -> (r: Result<T, ()>)
    ensures
        match o {
            Some(x) => r == Ok::<T, ()>(x),
            None => r is Err,
        },
{
    match o {
        Some(x) => Ok(x),
        None => Err(()),
    }
}

/// The index of the first `%` in `s` from `from` on, or its length.
fn find_percent(s: &[u8], from: usize) -> (r: usize)
    requires
        from <= s@.len(),
    ensures
        from <= r <= s@.len(),
        forall|j: int| from <= j < r ==> #[trigger] s@[j] != 37,
        r < s@.len() ==> s@[r as int] == 37,
{
    let mut i: usize = from;
    while i < s.len() && s[i] != 37
        invariant
            from <= i <= s@.len(),
            forall|j: int| from <= j < i ==> #[trigger] s@[j] != 37,
        decreases s@.len() - i,
    {
        i = i + 1;
    }
    i
}

/// The first line of a device, trimmed, holds a `%`; the name is what comes
/// before the first, the quantity what comes between it and the next (or
/// the end).
pub open spec fn device_names_match(line: Seq<u8>, name: String, quantity: String) -> bool {
    let t = trim(line);
    exists|p1: int, p2: int|
        {
            &&& 0 <= p1 < p2 <= t.len() && t[p1] == 37
            &&& (p2 == t.len() || t[p2] == 37)
            &&& forall|j: int| 0 <= j < p2 && j != p1 ==> #[trigger] t[j] != 37
            &&& name@ == lossy_text(t.subrange(0, p1))
            &&& quantity@ == lossy_text(t.subrange(p1 + 1, p2))
        }
}

/// The first line of a device: its name and quantity, the first two parts of
/// the trimmed line split at `%`.
fn device_names(line: &[u8]) -> (r: Result<(String, String), ()>)
    ensures
        match r {
            Ok((name, quantity)) => device_names_match(line@, name, quantity),
            Err(_) => forall|j: int| 0 <= j < trim(line@).len() ==> #[trigger] trim(line@)[j] != 37,
        },
{
    let t = trimmed(line);
    let p1 = find_percent(t, 0);
    if p1 == t.len() {
        return Err(());
    }
    let p2 = find_percent(t, p1 + 1);
    let name = text_from_bytes(&t[0..p1]);
    let quantity = text_from_bytes(&t[p1 + 1..p2]);
    assert(name@ == lossy_text(t@.subrange(0, p1 as int)));
    assert(quantity@ == lossy_text(t@.subrange(p1 + 1, p2 as int)));
    assert(forall|j: int| 0 <= j < p2 && j != p1 ==> #[trigger] t@[j] != 37);
    let ghost (q1, q2) = (p1 as int, p2 as int);
    assert({
        &&& 0 <= q1 < q2 <= t@.len() && t@[q1] == 37
        &&& (q2 == t@.len() || t@[q2] == 37)
        &&& forall|j: int| 0 <= j < q2 && j != q1 ==> #[trigger] t@[j] != 37
        &&& name@ == lossy_text(t@.subrange(0, q1))
        &&& quantity@ == lossy_text(t@.subrange(q1 + 1, q2))
    });
    Ok((name, quantity))
}

/// The tokens `t` form the second line of a device: two points, two 32-bit
/// integers, a separator, then, where the separator is `#`, two more points
/// and a second separator; then the beam type.
pub open spec fn device_ok(t: Seq<Seq<u8>>) -> bool {
    &&& xyz_ok(t, 0) && xyz_ok(t, 3)
    &&& signed_tok(t, 6, i32::MIN as int, i32::MAX as int)
    &&& signed_tok(t, 7, i32::MIN as int, i32::MAX as int)
    &&& t.len() > 8
    &&& if t[8] == "#".spec_bytes() {
        xyz_ok(t, 9) && xyz_ok(t, 12) && t.len() > 16
    } else {
        t.len() > 9
    }
}

pub open spec fn device_matches(d: SmvDevice, name: String, quantity: String, t: Seq<Seq<u8>>) -> bool {
    &&& d.name == name && d.quantity == quantity
    &&& xyz_at(t, 0, d.p1) && xyz_at(t, 3, d.p2)
    &&& d.state0 == signed_at(t, 6) && d.nparams == signed_at(t, 7)
    &&& if t[8] == "#".spec_bytes() {
        &&& d.ps matches Some((a, b)) && xyz_at(t, 9, a) && xyz_at(t, 12, b)
        &&& d.beam_type@ == lossy_text(t[16])
    } else {
        d.ps is None && d.beam_type@ == lossy_text(t[9])
    }
}

/// The second line of a device: two points, two integers, a separator, then
/// either `#` with two more points and a second separator, or not; then the
/// beam type.
fn device_line(name: String, quantity: String, line: &[u8]) -> (r: Result<SmvDevice, ()>)
    ensures
        match r {
            Ok(d) => device_ok(split_ws(line@)) && device_matches(d, name, quantity, split_ws(line@)),
            Err(_) => !device_ok(split_ws(line@)),
        },
{
    let t = split_whitespace(line);
    let p1 = need(xyz_from(&t, 0))?;
    let p2 = need(xyz_from(&t, 3))?;
    let state0 = need(i32_at(&t, 6))?;
    let nparams = need(i32_at(&t, 7))?;
    if t.len() <= 8 {
        return Err(());
    }
    proof {
        crate::records::lemma_token_view(&t, 8);
    }
    let (ps, beam) = if keyword_is(t[8].as_slice(), "#") {
        let a = need(xyz_from(&t, 9))?;
        let b = need(xyz_from(&t, 12))?;
        (Some((a, b)), 16usize)
    } else {
        (None, 9usize)
    };
    if t.len() <= beam {
        return Err(());
    }
    proof {
        crate::records::lemma_token_view(&t, beam as int);
    }
    let beam_type = text_from_bytes(t[beam].as_slice());
    Ok(SmvDevice { name, quantity, p1, p2, ps, beam_type, state0, nparams })
}

/// The number of lines that each pass of an obstruction block takes: the
/// declared count, or one line when the count is zero.
pub open spec fn obst_lines(n: int) -> int {
    if n == 0 {
        1
    } else {
        n
    }
}

impl ParserState {
    /// The lists that a counted block has gathered agree with its declared
    /// counts: the first pass fills before the second starts, ordinary vents
    /// before dummy ones, and a stage is left as soon as its count is reached.
    pub open spec fn wf(&self) -> bool {
        match self {
            ParserState::ObstBlock2(n, f) => f@.len() < *n || (*n == 0 && f@.len() == 0),
            ParserState::ObstBlock3(n, f, s) => f@.len() == obst_lines(*n as int) && s@.len()
                < f@.len(),
            ParserState::Vent2(n, f, nd, d) => {
                &&& f@.len() <= *n && d@.len() <= *nd
                &&& d@.len() > 0 ==> f@.len() == *n
                &&& f@.len() < *n || d@.len() < *nd || *n + *nd == 0
            },
            ParserState::Vent3(n, f, s, nd, d, ds) => {
                &&& f@.len() == *n && d@.len() == *nd
                &&& s@.len() <= *n && ds@.len() <= *nd
                &&& ds@.len() > 0 ==> s@.len() == *n
                &&& s@.len() < *n || ds@.len() < *nd || *n + *nd == 0
            },
            ParserState::Smoke3d(_, _, l) => l@.len() < 4,
            ParserState::Slcf(_, _, l) => l@.len() <= 4,
            ParserState::Bndf(_, _, l) => l@.len() <= 4,
            _ => true,
        }
    }
}

/// The state after line `f` of the first pass of a vent block.
pub open spec fn vent_first_next(
    n: usize,
    first: Seq<VentFirstHalf>,
    nd: usize,
    dummy: Seq<VentFirstHalf>,
    f: VentFirstHalf,
    r: ParserState,
) -> bool {
    let f2 = if first.len() < n {
        first.push(f)
    } else {
        first
    };
    let d2 = if first.len() >= n && dummy.len() < nd {
        dummy.push(f)
    } else {
        dummy
    };
    if f2.len() < n || d2.len() < nd {
        r matches ParserState::Vent2(n2, a, nd2, b) && n2 == n && nd2 == nd && a@ == f2 && b@
            == d2
    } else {
        r matches ParserState::Vent3(n2, a, s, nd2, b, ds) && n2 == n && nd2 == nd && a@ == f2
            && b@ == d2 && s@.len() == 0 && ds@.len() == 0
    }
}

/// The state after line `f` of the second pass of a vent block, and the
/// per-mesh vent lists before (`v0`) and after (`v1`) it.
pub open spec fn vent_second_next(
    n: usize,
    first: Vec<VentFirstHalf>,
    second: Seq<VentSecondHalf>,
    nd: usize,
    dummy_first: Vec<VentFirstHalf>,
    dummy_second: Seq<VentSecondHalf>,
    f: VentSecondHalf,
    v0: Seq<Vec<SmvVent>>,
    v1: Seq<Vec<SmvVent>>,
    r: ParserState,
) -> bool {
    let s2 = if second.len() < n {
        second.push(f)
    } else {
        second
    };
    let ds2 = if second.len() >= n && dummy_second.len() < nd {
        dummy_second.push(f)
    } else {
        dummy_second
    };
    if s2.len() < n || ds2.len() < nd {
        &&& r matches ParserState::Vent3(n2, a, s, nd2, b, ds) && n2 == n && nd2 == nd && a
            == first && b == dummy_first && s@ == s2 && ds@ == ds2
        &&& v1 == v0
    } else {
        &&& r is Idle
        &&& v1.len() == v0.len() + 1
        &&& v1.drop_last() == v0
        &&& v1.last()@.len() == n + nd
        &&& forall|k: int|
            0 <= k < n + nd ==> vent_paired(
                #[trigger] v1.last()@[k],
                (first@ + dummy_first@)[k],
                (s2 + ds2)[k],
            )
    }
}

/// The state after line `f` of the first pass of an obstruction block.
pub open spec fn obst_first_next(
    n: usize,
    first: Seq<ObstFirstHalf>,
    f: ObstFirstHalf,
    r: ParserState,
) -> bool {
    if first.len() + 1 >= n {
        r matches ParserState::ObstBlock3(m, a, b) && m == n && a@ == first.push(f) && b@.len()
            == 0
    } else {
        r matches ParserState::ObstBlock2(m, a) && m == n && a@ == first.push(f)
    }
}

/// The state after line `f` of the second pass of an obstruction block, and
/// the per-mesh obstruction lists before (`o0`) and after (`o1`) it.
pub open spec fn obst_second_next(
    n: usize,
    first: Vec<ObstFirstHalf>,
    second: Seq<ObstSecondHalf>,
    f: ObstSecondHalf,
    o0: Seq<Vec<SmvObst>>,
    o1: Seq<Vec<SmvObst>>,
    r: ParserState,
) -> bool {
    if second.len() + 1 == first@.len() {
        &&& r is Idle
        &&& o1.len() == o0.len() + 1
        &&& o1.drop_last() == o0
        &&& o1.last()@.len() == first@.len()
        &&& forall|k: int|
            0 <= k < first@.len() ==> obst_paired(
                #[trigger] o1.last()@[k],
                first@[k],
                second.push(f)[k],
            )
    } else {
        &&& r matches ParserState::ObstBlock3(m, a, b) && m == n && a == first && b@
            == second.push(f)
        &&& o1 == o0
    }
}

/// Adds a line of the first pass of a vent block: ordinary vents first,
/// then dummy vents; a line beyond both counts (both zero) is dropped. The
/// second pass starts once both counts are reached.
fn vent_first_add(
    n: usize,
    mut first: Vec<VentFirstHalf>,
    nd: usize,
    mut dummy: Vec<VentFirstHalf>,
    f: VentFirstHalf,
) -> (r: ParserState)
    requires
        ParserState::Vent2(n, first, nd, dummy).wf(),
    ensures
        r.wf(),
        vent_first_next(n, first@, nd, dummy@, f, r),
{
    if first.len() < n {
        first.push(f);
    } else if dummy.len() < nd {
        dummy.push(f);
    }
    if first.len() < n || dummy.len() < nd {
        ParserState::Vent2(n, first, nd, dummy)
    } else {
        ParserState::Vent3(n, first, Vec::new(), nd, dummy, Vec::new())
    }
}

/// Adds a line of the second pass of a vent block. When both counts are
/// reached the two passes are joined, dummy vents after ordinary ones, and
/// paired by position into one more entry of the per-mesh vent lists.
fn vent_second_add(
    n: usize,
    mut first: Vec<VentFirstHalf>,
    mut second: Vec<VentSecondHalf>,
    nd: usize,
    mut dummy_first: Vec<VentFirstHalf>,
    mut dummy_second: Vec<VentSecondHalf>,
    f: VentSecondHalf,
    vents: &mut Vec<Vec<SmvVent>>,
) -> (r: ParserState)
    requires
        ParserState::Vent3(n, first, second, nd, dummy_first, dummy_second).wf(),
    ensures
        r.wf(),
        vent_second_next(
            n,
            first,
            second@,
            nd,
            dummy_first,
            dummy_second@,
            f,
            old(vents)@,
            final(vents)@,
            r,
        ),
{
    if second.len() < n {
        second.push(f);
    } else if dummy_second.len() < nd {
        dummy_second.push(f);
    }
    if second.len() < n || dummy_second.len() < nd {
        ParserState::Vent3(n, first, second, nd, dummy_first, dummy_second)
    } else {
        let ghost a = first@ + dummy_first@;
        let ghost b = second@ + dummy_second@;
        first.append(&mut dummy_first);
        second.append(&mut dummy_second);
        assert(first@ == a);
        assert(second@ == b);
        let list = pair_vents(first, second);
        vents.push(list);
        assert(vents@.drop_last() =~= old(vents)@);
        ParserState::Idle
    }
}

/// Adds a line of the first pass of an obstruction block; the second pass
/// starts once the first has `obst_lines(n)` lines.
fn obst_first_add(n: usize, mut first: Vec<ObstFirstHalf>, f: ObstFirstHalf) -> (r: ParserState)
    requires
        ParserState::ObstBlock2(n, first).wf(),
    ensures
        r.wf(),
        obst_first_next(n, first@, f, r),
{
    first.push(f);
    if first.len() >= n {
        ParserState::ObstBlock3(n, first, Vec::new())
    } else {
        ParserState::ObstBlock2(n, first)
    }
}

/// Adds a line of the second pass of an obstruction block. When it matches
/// the first pass in length both are paired by position into one more entry
/// of the per-mesh obstruction lists.
fn obst_second_add(
    n: usize,
    first: Vec<ObstFirstHalf>,
    mut second: Vec<ObstSecondHalf>,
    f: ObstSecondHalf,
    obsts: &mut Vec<Vec<SmvObst>>,
) -> (r: ParserState)
    requires
        ParserState::ObstBlock3(n, first, second).wf(),
    ensures
        r.wf(),
        obst_second_next(n, first, second@, f, old(obsts)@, final(obsts)@, r),
{
    second.push(f);
    if second.len() >= n {
        let list = pair_obsts(first, second);
        obsts.push(list);
        assert(obsts@.drop_last() =~= old(obsts)@);
        ParserState::Idle
    } else {
        ParserState::ObstBlock3(n, first, second)
    }
}

} // verus!

verus! {

/// A line of a multi-line label record: up to four labels are kept; `Slcf`
/// and `Bndf` records are complete at the line after their fourth label,
/// `Smoke3d` records at their fourth.
fn label_line(state: ParserState, line: &[u8], p: &mut PendingSmvFile) -> (r: ParserState)
    requires
        state.wf(),
    ensures
        r.wf(),
        label_next(state, line@, *old(p), *final(p), r),
{
    match state {
        ParserState::Smoke3d(smoke_type, mesh, mut labels) => {
            labels.push(trimmed_text(line));
            if labels.len() < 4 {
                ParserState::Smoke3d(smoke_type, mesh, labels)
            } else {
                let units = labels.pop().unwrap();
                let short_name = labels.pop().unwrap();
                let long_name = labels.pop().unwrap();
                let file_name = labels.pop().unwrap();
                p.smoke_3d.push(
                    Smoke3d { smoke_type, mesh, file_name, long_name, short_name, units },
                );
                ParserState::Idle
            }
        },
        ParserState::Slcf(cell_centred, vs, mut labels) => {
            if labels.len() < 4 {
                labels.push(trimmed_text(line));
                ParserState::Slcf(cell_centred, vs, labels)
            } else {
                let units = labels.pop().unwrap();
                let short_name = labels.pop().unwrap();
                let long_name = labels.pop().unwrap();
                let filename = labels.pop().unwrap();
                p.slcfs.push(Slcf { cell_centred, vs, filename, long_name, short_name, units });
                ParserState::Idle
            }
        },
        ParserState::Bndf(a, b, mut labels) => {
            if labels.len() < 4 {
                labels.push(trimmed_text(line));
                ParserState::Bndf(a, b, labels)
            } else {
                let units = labels.pop().unwrap();
                let short_name = labels.pop().unwrap();
                let long_name = labels.pop().unwrap();
                let filename = labels.pop().unwrap();
                p.bndfs.push(Bndf { a, b, filename, long_name, short_name, units });
                ParserState::Idle
            }
        },
        other => other,
    }
}


/// `b` is `a` with one more entry at the end.
pub open spec fn one_more<T>(a: Seq<T>, b: Seq<T>) -> bool {
    b.len() > 0 && b == a.push(b.last())
}

/// The text of a line without the spaces at either end.
pub open spec fn ttext(line: Seq<u8>) -> Seq<char> {
    lossy_text(trim(line))
}

/// The text of a line without one leading space.
pub open spec fn stext(line: Seq<u8>) -> Seq<char> {
    lossy_text(strip_space(line))
}

/// `e` is the event of kind `kind` for mesh `n` whose index and time are
/// the tokens of its line.
pub open spec fn event_matches(e: SmvEvent, kind: EventKind, n: usize, t: Seq<Seq<u8>>) -> bool {
    let (n2, i, x) = match e {
        SmvEvent::OpenVent { n, i, t } => (n, i, t),
        SmvEvent::CloseVent { n, i, t } => (n, i, t),
        SmvEvent::ShowObst { n, i, t } => (n, i, t),
        SmvEvent::HideObst { n, i, t } => (n, i, t),
    };
    &&& match kind {
        EventKind::OpenVent => e is OpenVent,
        EventKind::CloseVent => e is CloseVent,
        EventKind::ShowObst => e is ShowObst,
        EventKind::HideObst => e is HideObst,
    }
    &&& n2 == n && i == unsigned_at(t, 0) && real_tok(t, 1, x)
}

/// What a body line does to a multi-line label record.
pub open spec fn label_next(
    s0: ParserState,
    line: Seq<u8>,
    p0: PendingSmvFile,
    p1: PendingSmvFile,
    r: ParserState,
) -> bool {
    match s0 {
        ParserState::Smoke3d(ty, mesh, labels) => if labels@.len() + 1 < 4 {
            &&& r matches ParserState::Smoke3d(ty2, mesh2, l) && ty2 == ty && mesh2 == mesh
                && one_more(labels@, l@) && l@.last()@ == ttext(line)
            &&& p1.same(&p0)
        } else {
            let x = p1.smoke_3d@.last();
            &&& r is Idle
            &&& p1.same_except(&p0, PendingField::Smoke3d) && one_more(p0.smoke_3d@, p1.smoke_3d@)
            &&& x.smoke_type == ty && x.mesh == mesh && x.file_name == labels@[0]
            &&& x.long_name == labels@[1] && x.short_name == labels@[2] && x.units@ == ttext(line)
        },
        ParserState::Slcf(cell_centred, vs, labels) => if labels@.len() < 4 {
            &&& r matches ParserState::Slcf(c2, vs2, l) && c2 == cell_centred && vs2 == vs
                && one_more(labels@, l@) && l@.last()@ == ttext(line)
            &&& p1.same(&p0)
        } else {
            let x = p1.slcfs@.last();
            &&& r is Idle
            &&& p1.same_except(&p0, PendingField::Slcfs) && one_more(p0.slcfs@, p1.slcfs@)
            &&& x.cell_centred == cell_centred && x.vs == vs && x.filename == labels@[0]
            &&& x.long_name == labels@[1] && x.short_name == labels@[2] && x.units == labels@[3]
        },
        ParserState::Bndf(a, b, labels) => if labels@.len() < 4 {
            &&& r matches ParserState::Bndf(a2, b2, l) && a2 == a && b2 == b && one_more(
                labels@,
                l@,
            ) && l@.last()@ == ttext(line)
            &&& p1.same(&p0)
        } else {
            let x = p1.bndfs@.last();
            &&& r is Idle
            &&& p1.same_except(&p0, PendingField::Bndfs) && one_more(p0.bndfs@, p1.bndfs@)
            &&& x.a == a && x.b == b && x.filename == labels@[0]
            &&& x.long_name == labels@[1] && x.short_name == labels@[2] && x.units == labels@[3]
        },
        _ => r == s0 && p1.same(&p0),
    }
}

/// A malformed line: an error, and nothing recorded.
pub open spec fn refused(p0: PendingSmvFile, p1: PendingSmvFile, r: Result<ParserState, ()>) -> bool {
    r is Err && p1.same(&p0)
}

/// What a body line `line` does in state `s0`: the next state `r`, and what
/// the pending aggregate becomes (`p0` before, `p1` after). A line that a
/// block cannot read is refused.
pub open spec fn body_step(
    s0: ParserState,
    line: Seq<u8>,
    p0: PendingSmvFile,
    p1: PendingSmvFile,
    r: Result<ParserState, ()>,
) -> bool {
    let t = split_ws(line);
    match s0 {
        ParserState::Idle => r == Ok::<ParserState, ()>(ParserState::Idle) && p1.same(&p0),
        ParserState::TitleBlock => {
            &&& r == Ok::<ParserState, ()>(ParserState::Idle)
            &&& p1.same_except(&p0, PendingField::Title)
            &&& p1.title matches Some(x) && x@ == stext(line)
        },
        ParserState::FdsVersion1 => {
            &&& r == Ok::<ParserState, ()>(ParserState::FdsVersion2)
            &&& p1.same_except(&p0, PendingField::FdsVersion)
            &&& p1.fds_version matches Some(x) && x@ == lossy_text(line)
        },
        ParserState::FdsVersion2 => {
            &&& r == Ok::<ParserState, ()>(ParserState::Idle)
            &&& p1.same_except(&p0, PendingField::FdsVersion)
            &&& p1.fds_version matches Some(x) && x@ == lossy_text(line)
        },
        ParserState::Revision => {
            &&& r == Ok::<ParserState, ()>(ParserState::Idle)
            &&& p1.same_except(&p0, PendingField::Revision)
            &&& p1.revision matches Some(x) && x@ == lossy_text(line)
        },
        ParserState::NMeshes => if whole_unsigned(line, u64::MAX as int) {
            &&& r == Ok::<ParserState, ()>(ParserState::Idle)
            &&& p1.same_except(&p0, PendingField::NMeshes)
            &&& p1.n_meshes matches Some(x) && x == unsigned_of(trim(line))->0
        } else {
            refused(p0, p1, r)
        },
        ParserState::ViewTimes => if is_real_tok(t, 0) && is_real_tok(t, 1) && unsigned_tok(
            t,
            2,
            usize::MAX as int,
        ) {
            &&& r == Ok::<ParserState, ()>(ParserState::Idle)
            &&& p1.same_except(&p0, PendingField::ViewTimes)
            &&& p1.view_times matches Some(v) && real_tok(t, 0, v.tour_tstart) && real_tok(
                t,
                1,
                v.tour_tstop,
            ) && v.tour_ntimes == unsigned_at(t, 2)
        } else {
            refused(p0, p1, r)
        },
        ParserState::Albedo => if is_real(trim(line)) {
            &&& r == Ok::<ParserState, ()>(ParserState::Idle)
            &&& p1.same_except(&p0, PendingField::Albedo)
            &&& p1.albedo matches Some(a) && a.text@ == trim(line)
        } else {
            refused(p0, p1, r)
        },
        ParserState::IBlank => if whole_unsigned(line, u64::MAX as int) {
            &&& r == Ok::<ParserState, ()>(ParserState::Idle)
            &&& p1.same_except(&p0, PendingField::IBlank)
            &&& p1.i_blank matches Some(x) && x == unsigned_of(trim(line))->0
        } else {
            refused(p0, p1, r)
        },
        ParserState::GVec => if xyz_ok(t, 0) {
            &&& r == Ok::<ParserState, ()>(ParserState::Idle)
            &&& p1.same_except(&p0, PendingField::Gvec)
            &&& p1.gvec matches Some(g) && xyz_at(t, 0, g)
        } else {
            refused(p0, p1, r)
        },
        ParserState::Ignored => r == Ok::<ParserState, ()>(ParserState::Idle) && p1.same(&p0),
        ParserState::Event(kind, n) => if unsigned_tok(t, 0, usize::MAX as int) && is_real_tok(
            t,
            1,
        ) {
            &&& r == Ok::<ParserState, ()>(ParserState::Idle)
            &&& p1.same_except(&p0, PendingField::Events) && one_more(p0.events@, p1.events@)
            &&& event_matches(p1.events@.last(), kind, n, t)
        } else {
            refused(p0, p1, r)
        },
        ParserState::TOffset => if xyz_ok(t, 0) {
            &&& r == Ok::<ParserState, ()>(ParserState::Idle)
            &&& p1.same_except(&p0, PendingField::TextureOrigin)
            &&& p1.texture_origin matches Some(g) && xyz_at(t, 0, g)
        } else {
            refused(p0, p1, r)
        },
        ParserState::Device1 => if exists|j: int| 0 <= j < trim(line).len() && #[trigger] trim(line)[j] == 37 {
            &&& r matches Ok(ParserState::Device2(a, b)) && device_names_match(line, a, b)
            &&& p1.same(&p0)
        } else {
            refused(p0, p1, r)
        },
        ParserState::Device2(name, quantity) => if device_ok(t) {
            &&& r == Ok::<ParserState, ()>(ParserState::Idle)
            &&& p1.same_except(&p0, PendingField::Devcs) && one_more(p0.devcs@, p1.devcs@)
            &&& device_matches(p1.devcs@.last(), name, quantity, t)
        } else {
            refused(p0, p1, r)
        },
        ParserState::Offset => if xyz_ok(t, 0) {
            &&& r == Ok::<ParserState, ()>(ParserState::Idle)
            &&& p1.same_except(&p0, PendingField::Offsets) && one_more(p0.offsets@, p1.offsets@)
            &&& xyz_at(t, 0, p1.offsets@.last())
        } else {
            refused(p0, p1, r)
        },
        ParserState::Pdim => if xb_ok(t, 0) && xyz_ok(t, 6) {
            &&& r == Ok::<ParserState, ()>(ParserState::Idle)
            &&& p1.same_except(&p0, PendingField::Pdims) && one_more(p0.pdims@, p1.pdims@)
            &&& xb_at(t, 0, p1.pdims@.last().xb) && rgbf_at(t, 6, p1.pdims@.last().color)
        } else {
            refused(p0, p1, r)
        },
        ParserState::Vent1 => if unsigned_tok(t, 0, usize::MAX as int) && unsigned_tok(
            t,
            1,
            usize::MAX as int,
        ) && unsigned_at(t, 1) <= unsigned_at(t, 0) {
            &&& r matches Ok(ParserState::Vent2(n, f, nd, d)) && n == unsigned_at(t, 0)
                - unsigned_at(t, 1) && nd == unsigned_at(t, 1) && f@.len() == 0 && d@.len() == 0
            &&& p1.same(&p0)
        } else {
            refused(p0, p1, r)
        },
        ParserState::Vent2(n, first, nd, dummy) => if vent_first_ok(t) {
            &&& r matches Ok(s) && exists|f: VentFirstHalf|
                #[trigger] vent_first_matches(f, t) && vent_first_next(n, first@, nd, dummy@, f, s)
            &&& p1.same(&p0)
        } else {
            refused(p0, p1, r)
        },
        ParserState::Vent3(n, first, second, nd, dummy_first, dummy_second) => if vent_second_ok(t) {
            &&& r matches Ok(s) && exists|f: VentSecondHalf|
                #[trigger] vent_second_matches(f, t) && vent_second_next(
                    n,
                    first,
                    second@,
                    nd,
                    dummy_first,
                    dummy_second@,
                    f,
                    p0.vents@,
                    p1.vents@,
                    s,
                )
            &&& p1.same_except(&p0, PendingField::Vents)
        } else {
            refused(p0, p1, r)
        },
        ParserState::Grid(name) => if u64_tok(t, 0) && u64_tok(t, 1) && u64_tok(t, 2) && u64_tok(
            t,
            3,
        ) {
            let g = p1.grids@.last();
            &&& r == Ok::<ParserState, ()>(ParserState::Idle)
            &&& p1.same_except(&p0, PendingField::Grids) && one_more(p0.grids@, p1.grids@)
            &&& g.name == name && g.i_bar == unsigned_at(t, 0) && g.j_bar == unsigned_at(t, 1)
            &&& g.k_bar == unsigned_at(t, 2) && g.mesh_type == unsigned_at(t, 3)
        } else {
            refused(p0, p1, r)
        },
        ParserState::Smoke3d(..) | ParserState::Slcf(..) | ParserState::Bndf(..) => r matches Ok(
            s,
        ) && label_next(s0, line, p0, p1, s),
        ParserState::Prt51(n) => r matches Ok(ParserState::Prt52(m, f)) && m == n && f@ == ttext(
            line,
        ) && p1.same(&p0),
        ParserState::Prt52(n, f) => if whole_signed(line) {
            &&& r matches Ok(ParserState::Prt53(m, f2, a)) && m == n && f2 == f && a == signed_of(
                trim(line),
            )->0
            &&& p1.same(&p0)
        } else {
            refused(p0, p1, r)
        },
        ParserState::Prt53(n, f, a) => if whole_signed(line) {
            let x = p1.prt5s@.last();
            &&& r == Ok::<ParserState, ()>(ParserState::Idle)
            &&& p1.same_except(&p0, PendingField::Prt5s) && one_more(p0.prt5s@, p1.prt5s@)
            &&& x.n == n && x.filename == f && x.a == a && x.b == signed_of(trim(line))->0
        } else {
            refused(p0, p1, r)
        },
        ParserState::DeviceAct(name) => if unsigned_tok(t, 0, usize::MAX as int) && is_real_tok(
            t,
            1,
        ) && unsigned_tok(t, 2, usize::MAX as int) {
            let x = p1.device_acts@.last();
            &&& r == Ok::<ParserState, ()>(ParserState::Idle)
            &&& p1.same_except(&p0, PendingField::DeviceActs) && one_more(
                p0.device_acts@,
                p1.device_acts@,
            )
            &&& x.name == name && x.i == unsigned_at(t, 0) && real_tok(t, 1, x.v) && x.n
                == unsigned_at(t, 2)
        } else {
            refused(p0, p1, r)
        },
        ParserState::Endf => {
            &&& r == Ok::<ParserState, ()>(ParserState::Idle)
            &&& p1.same_except(&p0, PendingField::EndfFilename)
            &&& p1.endf_filename matches Some(x) && x@ == ttext(line)
        },
        ParserState::SurfDef => {
            &&& r == Ok::<ParserState, ()>(ParserState::Idle)
            &&& p1.same_except(&p0, PendingField::SurfDef)
            &&& p1.surf_def matches Some(x) && x@ == ttext(line)
        },
        ParserState::Xyz => {
            &&& r == Ok::<ParserState, ()>(ParserState::Idle)
            &&& p1.same_except(&p0, PendingField::Xyzs) && one_more(p0.xyzs@, p1.xyzs@)
            &&& p1.xyzs@.last()@ == stext(line)
        },
        ParserState::ChidBlock => {
            &&& r == Ok::<ParserState, ()>(ParserState::Idle)
            &&& p1.same_except(&p0, PendingField::Chid)
            &&& p1.chid matches Some(x) && x@ == stext(line)
        },
        ParserState::SolidHt3d => if whole_signed(line) {
            &&& r == Ok::<ParserState, ()>(ParserState::Idle)
            &&& p1.same_except(&p0, PendingField::SolidHt3d)
            &&& p1.solid_ht3d matches Some(x) && x == signed_of(trim(line))->0
        } else {
            refused(p0, p1, r)
        },
        ParserState::CsvfBlock1 => r matches Ok(ParserState::CsvfBlock2(x)) && x@ == ttext(line)
            && p1.same(&p0),
        ParserState::CsvfBlock2(ty) => {
            &&& r == Ok::<ParserState, ()>(ParserState::Idle)
            &&& p1.same_except(&p0, PendingField::Csvfs) && one_more(p0.csvfs@, p1.csvfs@)
            &&& p1.csvfs@.last().type_ == ty && p1.csvfs@.last().filename@ == ttext(line)
        },
        ParserState::InpfBlock => {
            &&& r == Ok::<ParserState, ()>(ParserState::Idle)
            &&& p1.same_except(&p0, PendingField::InputFilename)
            &&& p1.input_filename matches Some(x) && x@ == ttext(line)
        },
        ParserState::ObstBlock1 => if whole_unsigned(line, usize::MAX as int) {
            &&& r matches Ok(ParserState::ObstBlock2(n, f)) && n == unsigned_of(trim(line))->0
                && f@.len() == 0
            &&& p1.same(&p0)
        } else {
            refused(p0, p1, r)
        },
        ParserState::ObstBlock2(n, first) => if obst_first_ok(t) {
            &&& r matches Ok(s) && exists|f: ObstFirstHalf|
                #[trigger] obst_first_matches(f, t) && obst_first_next(n, first@, f, s)
            &&& p1.same(&p0)
        } else {
            refused(p0, p1, r)
        },
        ParserState::ObstBlock3(n, first, second) => if obst_second_ok(t) {
            &&& r matches Ok(s) && exists|f: ObstSecondHalf|
                #[trigger] obst_second_matches(f, t) && obst_second_next(
                    n,
                    first,
                    second@,
                    f,
                    p0.obsts@,
                    p1.obsts@,
                    s,
                )
            &&& p1.same_except(&p0, PendingField::Obsts)
        } else {
            refused(p0, p1, r)
        },
        ParserState::Surface1 => r matches Ok(ParserState::Surface2(x)) && x@ == ttext(line)
            && p1.same(&p0),
        ParserState::Surface2(name) => if is_real_tok(t, 0) && is_real_tok(t, 1) {
            &&& r matches Ok(ParserState::Surface3(n2, a, b)) && n2 == name && real_tok(t, 0, a)
                && real_tok(t, 1, b)
            &&& p1.same(&p0)
        } else {
            refused(p0, p1, r)
        },
        ParserState::Surface3(name, ig, em) => if i64_tok(t, 0) && is_real_tok(t, 1)
            && is_real_tok(t, 2) && rgbaf_ok(t, 3) {
            &&& r matches Ok(ParserState::Surface4(n2, ig2, em2, st, w, h, c)) && n2 == name
                && ig2 == ig && em2 == em && st == signed_at(t, 0) && real_tok(t, 1, w) && real_tok(
                t,
                2,
                h,
            ) && rgbaf_at(t, 3, c)
            &&& p1.same(&p0)
        } else {
            refused(p0, p1, r)
        },
        ParserState::Surface4(name, ig, em, st, w, h, c) => {
            let x = p1.surfs@.last();
            &&& r == Ok::<ParserState, ()>(ParserState::Idle)
            &&& p1.same_except(&p0, PendingField::Surfs) && one_more(p0.surfs@, p1.surfs@)
            &&& x.name == name && x.ignition_temperature == ig && x.emissivity == em
            &&& x.surface_type == st && x.t_width == w && x.t_height == h && x.color == c
            &&& x.texture_file@ == ttext(line)
        },
        ParserState::Trn1(axis) => if whole_unsigned(line, usize::MAX as int) {
            &&& r matches Ok(ParserState::Trn2(a, k, e)) && a == axis && k == unsigned_of(
                trim(line),
            )->0 && e@.len() == 0
            &&& p1.same(&p0)
        } else {
            refused(p0, p1, r)
        },
        ParserState::Trn2(axis, skip, entries) => if skip > 0 {
            &&& r matches Ok(ParserState::Trn2(a, k, e)) && a == axis && k == skip - 1 && e
                == entries
            &&& p1.same(&p0)
        } else if trn_ok(t) {
            &&& r matches Ok(ParserState::Trn2(a, k, e)) && a == axis && k == 0 && one_more(
                entries@,
                e@,
            ) && trn_matches(e@.last(), t)
            &&& p1.same(&p0)
        } else {
            refused(p0, p1, r)
        },
    }
}

/// Reads a body line in `state`: records what it holds and gives the next
/// state, or `Err` where the line is malformed.
pub fn read_body(state: ParserState, line: &[u8], p: &mut PendingSmvFile) -> (r: Result<
    ParserState,
    (),
>)
    requires
        state.wf(),
    ensures
        r matches Ok(s) ==> s.wf(),
        body_step(state, line@, *old(p), *final(p), r),
{
    match state {
        ParserState::Idle => Ok(ParserState::Idle),
        ParserState::TitleBlock => {
            p.title = Some(text_after_space(line));
            Ok(ParserState::Idle)
        },
        ParserState::FdsVersion1 => {
            p.fds_version = Some(text_from_bytes(line));
            Ok(ParserState::FdsVersion2)
        },
        ParserState::FdsVersion2 => {
            p.fds_version = Some(text_from_bytes(line));
            Ok(ParserState::Idle)
        },
        ParserState::Revision => {
            p.revision = Some(text_from_bytes(line));
            Ok(ParserState::Idle)
        },
        ParserState::NMeshes => {
            p.n_meshes = Some(need(whole_u64(line))?);
            Ok(ParserState::Idle)
        },
        ParserState::ViewTimes => {
            let t = split_whitespace(line);
            let tour_tstart = need(real_at(&t, 0))?;
            let tour_tstop = need(real_at(&t, 1))?;
            let tour_ntimes = need(usize_at(&t, 2))?;
            p.view_times = Some(ViewTimes { tour_tstart, tour_tstop, tour_ntimes });
            Ok(ParserState::Idle)
        },
        ParserState::Albedo => {
            p.albedo = Some(need(Real::parse(trimmed(line)))?);
            Ok(ParserState::Idle)
        },
        ParserState::IBlank => {
            p.i_blank = Some(need(whole_u64(line))?);
            Ok(ParserState::Idle)
        },
        ParserState::GVec => {
            let t = split_whitespace(line);
            p.gvec = Some(need(xyz_from(&t, 0))?);
            Ok(ParserState::Idle)
        },
        ParserState::Ignored => Ok(ParserState::Idle),
        ParserState::Event(kind, n) => {
            let t = split_whitespace(line);
            let i = need(usize_at(&t, 0))?;
            let time = need(real_at(&t, 1))?;
            let event = match kind {
                EventKind::CloseVent => SmvEvent::CloseVent { n, i, t: time },
                EventKind::OpenVent => SmvEvent::OpenVent { n, i, t: time },
                EventKind::HideObst => SmvEvent::HideObst { n, i, t: time },
                EventKind::ShowObst => SmvEvent::ShowObst { n, i, t: time },
            };
            p.events.push(event);
            Ok(ParserState::Idle)
        },
        ParserState::TOffset => {
            let t = split_whitespace(line);
            p.texture_origin = Some(need(xyz_from(&t, 0))?);
            Ok(ParserState::Idle)
        },
        ParserState::Device1 => {
            let (name, quantity) = device_names(line)?;
            Ok(ParserState::Device2(name, quantity))
        },
        ParserState::Device2(name, quantity) => {
            let device = device_line(name, quantity, line)?;
            p.devcs.push(device);
            Ok(ParserState::Idle)
        },
        ParserState::Offset => {
            let t = split_whitespace(line);
            p.offsets.push(need(xyz_from(&t, 0))?);
            assert(p.offsets@.drop_last() =~= old(p).offsets@);
            Ok(ParserState::Idle)
        },
        ParserState::Pdim => {
            let t = split_whitespace(line);
            let xb = need(xb_from(&t, 0))?;
            let color = need(rgbf_from(&t, 6))?;
            p.pdims.push(PdimBlock { xb, color });
            assert(p.pdims@.drop_last() =~= old(p).pdims@);
            Ok(ParserState::Idle)
        },
        ParserState::Vent1 => {
            let t = split_whitespace(line);
            let total = need(usize_at(&t, 0))?;
            let dummies = need(usize_at(&t, 1))?;
            if dummies > total {
                return Err(());
            }
            Ok(ParserState::Vent2(total - dummies, Vec::new(), dummies, Vec::new()))
        },
        ParserState::Vent2(n, first, nd, dummy) => {
            let t = split_whitespace(line);
            let f = need(VentFirstHalf::from_tokens(&t))?;
            Ok(vent_first_add(n, first, nd, dummy, f))
        },
        ParserState::Vent3(n, first, second, nd, dummy_first, dummy_second) => {
            let t = split_whitespace(line);
            let f = need(VentSecondHalf::from_tokens(&t))?;
            Ok(vent_second_add(n, first, second, nd, dummy_first, dummy_second, f, &mut p.vents))
        },
        ParserState::Grid(name) => {
            let t = split_whitespace(line);
            let i_bar = need(u64_at(&t, 0))?;
            let j_bar = need(u64_at(&t, 1))?;
            let k_bar = need(u64_at(&t, 2))?;
            let mesh_type = need(u64_at(&t, 3))?;
            p.grids.push(GridBlock { name, i_bar, j_bar, k_bar, mesh_type });
            assert(p.grids@.drop_last() =~= old(p).grids@);
            Ok(ParserState::Idle)
        },
        ParserState::Smoke3d(smoke_type, mesh, labels) => Ok(
            label_line(ParserState::Smoke3d(smoke_type, mesh, labels), line, p),
        ),
        ParserState::Slcf(cell_centred, vs, labels) => Ok(
            label_line(ParserState::Slcf(cell_centred, vs, labels), line, p),
        ),
        ParserState::Bndf(a, b, labels) => Ok(
            label_line(ParserState::Bndf(a, b, labels), line, p),
        ),
        ParserState::Prt51(n) => Ok(ParserState::Prt52(n, trimmed_text(line))),
        ParserState::Prt52(n, filename) => {
            let a = need(whole_i64(line))?;
            Ok(ParserState::Prt53(n, filename, a))
        },
        ParserState::Prt53(n, filename, a) => {
            let b = need(whole_i64(line))?;
            p.prt5s.push(Prt5 { n, filename, a, b });
            Ok(ParserState::Idle)
        },
        ParserState::DeviceAct(name) => {
            let t = split_whitespace(line);
            let i = need(usize_at(&t, 0))?;
            let v = need(real_at(&t, 1))?;
            let n = need(usize_at(&t, 2))?;
            p.device_acts.push(SmvDeviceAct { name, n, i, v });
            Ok(ParserState::Idle)
        },
        ParserState::Endf => {
            p.endf_filename = Some(trimmed_text(line));
            Ok(ParserState::Idle)
        },
        ParserState::SurfDef => {
            p.surf_def = Some(trimmed_text(line));
            Ok(ParserState::Idle)
        },
        ParserState::Xyz => {
            p.xyzs.push(text_after_space(line));
            Ok(ParserState::Idle)
        },
        ParserState::ChidBlock => {
            p.chid = Some(text_after_space(line));
            Ok(ParserState::Idle)
        },
        ParserState::SolidHt3d => {
            p.solid_ht3d = Some(need(whole_i64(line))?);
            Ok(ParserState::Idle)
        },
        ParserState::CsvfBlock1 => Ok(ParserState::CsvfBlock2(trimmed_text(line))),
        ParserState::CsvfBlock2(type_) => {
            p.csvfs.push(CSVEntry { type_, filename: trimmed_text(line) });
            Ok(ParserState::Idle)
        },
        ParserState::InpfBlock => {
            p.input_filename = Some(trimmed_text(line));
            Ok(ParserState::Idle)
        },
        ParserState::ObstBlock1 => {
            let n = need(whole_usize(line))?;
            Ok(ParserState::ObstBlock2(n, Vec::new()))
        },
        ParserState::ObstBlock2(n, first) => {
            let t = split_whitespace(line);
            let f = need(ObstFirstHalf::from_tokens(&t))?;
            Ok(obst_first_add(n, first, f))
        },
        ParserState::ObstBlock3(n, first, second) => {
            let t = split_whitespace(line);
            let f = need(ObstSecondHalf::from_tokens(&t))?;
            Ok(obst_second_add(n, first, second, f, &mut p.obsts))
        },
        ParserState::Surface1 => Ok(ParserState::Surface2(trimmed_text(line))),
        ParserState::Surface2(name) => {
            let t = split_whitespace(line);
            let ignition = need(real_at(&t, 0))?;
            let emissivity = need(real_at(&t, 1))?;
            Ok(ParserState::Surface3(name, ignition, emissivity))
        },
        ParserState::Surface3(name, ignition, emissivity) => {
            let t = split_whitespace(line);
            let s_type = need(i64_at(&t, 0))?;
            let t_width = need(real_at(&t, 1))?;
            let t_height = need(real_at(&t, 2))?;
            let color = need(rgbaf_from(&t, 3))?;
            Ok(ParserState::Surface4(name, ignition, emissivity, s_type, t_width, t_height, color))
        },
        ParserState::Surface4(
            name,
            ignition_temperature,
            emissivity,
            surface_type,
            t_width,
            t_height,
            color,
        ) => {
            let texture_file = trimmed_text(line);
            p.surfs.push(
                SmvSurface {
                    name,
                    ignition_temperature,
                    emissivity,
                    surface_type,
                    t_width,
                    t_height,
                    color,
                    texture_file,
                },
            );
            Ok(ParserState::Idle)
        },
        ParserState::Trn1(axis) => {
            let skip = need(whole_usize(line))?;
            Ok(ParserState::Trn2(axis, skip, Vec::new()))
        },
        ParserState::Trn2(axis, skip, mut entries) => {
            if skip > 0 {
                Ok(ParserState::Trn2(axis, skip - 1, entries))
            } else {
                let t = split_whitespace(line);
                let ghost before = entries@;
                entries.push(need(TrnEntry::from_tokens(&t))?);
                assert(entries@.drop_last() =~= before);
                Ok(ParserState::Trn2(axis, 0, entries))
            }
        },
    }
}

} // verus!

verus! {

/// What a block header line does to the state and the pending aggregate
/// (`p0` before, `p1` after) before the line itself is read.
pub open spec fn end_step(s0: ParserState, p0: PendingSmvFile, p1: PendingSmvFile, r: ParserState) -> bool {
    match s0 {
        ParserState::Trn2(axis, _, e) => r is Idle && match axis {
            Axis::X => p1.same_except(&p0, PendingField::Trnx) && p1.trnx@ == p0.trnx@.push(e),
            Axis::Y => p1.same_except(&p0, PendingField::Trny) && p1.trny@ == p0.trny@.push(e),
            Axis::Z => p1.same_except(&p0, PendingField::Trnz) && p1.trnz@ == p0.trnz@.push(e),
        },
        ParserState::ObstBlock2(n, _) => r is Idle && if n == 0 {
            p1.same_except(&p0, PendingField::Obsts) && one_more(p0.obsts@, p1.obsts@)
                && p1.obsts@.last()@.len() == 0
        } else {
            p1.same(&p0)
        },
        ParserState::Vent2(n, _, nd, _) => r is Idle && if n == 0 && nd == 0 {
            p1.same_except(&p0, PendingField::Vents) && one_more(p0.vents@, p1.vents@)
                && p1.vents@.last()@.len() == 0
        } else {
            p1.same(&p0)
        },
        ParserState::Surface3(..) | ParserState::FdsVersion1 | ParserState::FdsVersion2
        | ParserState::Revision => r == s0 && p1.same(&p0),
        _ => r is Idle && p1.same(&p0),
    }
}

/// What a block header line does to the state before the line itself is
/// read: a transform table is complete at the next header; an obstruction
/// or vent block declared empty is recorded as an empty list; the version,
/// revision and third surface stages read the header line as their body;
/// anything else is left.
pub fn end_of_block(state: ParserState, p: &mut PendingSmvFile) -> (r: ParserState)
    requires
        state.wf(),
    ensures
        r.wf(),
        end_step(state, *old(p), *final(p), r),
{
    match state {
        ParserState::Trn2(axis, skip, entries) => {
            match axis {
                Axis::X => p.trnx.push(entries),
                Axis::Y => p.trny.push(entries),
                Axis::Z => p.trnz.push(entries),
            }
            ParserState::Idle
        },
        ParserState::ObstBlock2(n, first) => {
            if n == 0 {
                p.obsts.push(Vec::new());
                assert(p.obsts@.drop_last() =~= old(p).obsts@);
            }
            ParserState::Idle
        },
        ParserState::Vent2(n, first, nd, dummy) => {
            if n == 0 && nd == 0 {
                p.vents.push(Vec::new());
                assert(p.vents@.drop_last() =~= old(p).vents@);
            }
            ParserState::Idle
        },
        ParserState::Surface3(name, ignition, emissivity) => ParserState::Surface3(
            name,
            ignition,
            emissivity,
        ),
        ParserState::FdsVersion1 => ParserState::FdsVersion1,
        ParserState::FdsVersion2 => ParserState::FdsVersion2,
        ParserState::Revision => ParserState::Revision,
        _ => ParserState::Idle,
    }
}

/// The index of the first line feed of `b` at or after `pos`, or the length
/// of `b`.
pub open spec fn next_nl(b: Seq<u8>, pos: int) -> int
    decreases b.len() - pos,
{
    if pos >= b.len() {
        b.len() as int
    } else if b[pos] == 10 {
        pos
    } else {
        next_nl(b, pos + 1)
    }
}

proof fn lemma_next_nl(b: Seq<u8>, pos: int)
    requires
        0 <= pos <= b.len(),
    ensures
        pos <= next_nl(b, pos) <= b.len(),
    decreases b.len() - pos,
{
    if pos < b.len() && b[pos] != 10 {
        lemma_next_nl(b, pos + 1);
    }
}

/// The line that starts at `pos`: up to the next line feed, less a carriage
/// return before it.
pub open spec fn line_at(b: Seq<u8>, pos: int) -> Seq<u8> {
    let e = next_nl(b, pos);
    let stop = if e < b.len() && e > pos && b[e - 1] == 13 {
        e - 1
    } else {
        e
    };
    b.subrange(pos, stop)
}

/// Where the line after the one at `pos` starts.
pub open spec fn after_line(b: Seq<u8>, pos: int) -> int {
    let e = next_nl(b, pos);
    if e < b.len() {
        e + 1
    } else {
        b.len() as int
    }
}

/// The end of the line that starts at `pos`: the index of the next line
/// feed, or the length of `s`.
fn line_end(s: &[u8], pos: usize) -> (r: usize)
    requires
        pos <= s@.len(),
    ensures
        r == next_nl(s@, pos as int),
        pos <= r <= s@.len(),
{
    proof {
        lemma_next_nl(s@, pos as int);
    }
    let mut i: usize = pos;
    while i < s.len() && s[i] != 10
        invariant
            pos <= i <= s@.len(),
            next_nl(s@, pos as int) == next_nl(s@, i as int),
        decreases s@.len() - i,
    {
        i = i + 1;
    }
    i
}

/// A body line read in state `s0`: the next state `s1`, or the error for
/// line number `ln`.
pub open spec fn body_outcome(
    s0: ParserState,
    p0: PendingSmvFile,
    line: Seq<u8>,
    ln: int,
    s1: ParserState,
    p1: PendingSmvFile,
    e: Option<ParseSmvError>,
) -> bool {
    exists|r: Result<ParserState, ()>|
        #[trigger] body_step(s0, line, p0, p1, r) && match r {
            Ok(x) => s1 == x && e is None,
            Err(_) => e == Some(ParseSmvError::BadLine(ln as usize)),
        }
}

/// A header line read once the state `sm` has been settled: with no block
/// active it names the next block (or is recorded as unrecognised);
/// otherwise the active block reads it as a body line.
pub open spec fn header_outcome(
    sm: ParserState,
    pm: PendingSmvFile,
    line: Seq<u8>,
    ln: int,
    s1: ParserState,
    p1: PendingSmvFile,
    e: Option<ParseSmvError>,
) -> bool {
    if sm is Idle {
        let name = line.take(word_len(line) as int);
        let rem = line.skip(word_len(line) as int);
        exists|r: Result<Option<ParserState>, ()>|
            #[trigger] start_step(name, rem, r) && match r {
                Ok(Some(x)) => s1 == x && p1 == pm && e is None,
                Ok(None) => {
                    &&& s1 is Idle && e is None
                    &&& p1.same_except(&pm, PendingField::Unrecognized)
                    &&& one_more(pm.unrecognized@, p1.unrecognized@)
                    &&& p1.unrecognized@.last()@ == lossy_text(name)
                },
                Err(_) => e == Some(ParseSmvError::BadLine(ln as usize)),
            }
    } else {
        body_outcome(sm, pm, line, ln, s1, p1, e)
    }
}

/// What reading line number `ln` does: blank lines are passed over; a
/// header line (one that starts with a non-space byte) first settles the
/// active block; a body line with no block active is passed over.
pub open spec fn line_step(
    s0: ParserState,
    p0: PendingSmvFile,
    line: Seq<u8>,
    ln: int,
    s1: ParserState,
    p1: PendingSmvFile,
    e: Option<ParseSmvError>,
) -> bool {
    if line.len() == 0 {
        s1 == s0 && p1 == p0 && e is None
    } else if !is_space(line[0]) {
        exists|sm: ParserState, pm: PendingSmvFile|
            #[trigger] end_step(s0, p0, pm, sm) && header_outcome(sm, pm, line, ln, s1, p1, e)
    } else if s0 is Idle {
        s1 == s0 && p1 == p0 && e is None
    } else {
        body_outcome(s0, p0, line, ln, s1, p1, e)
    }
}

#[via_fn]
proof fn run_decreases(
    b: Seq<u8>,
    pos: int,
    ln: int,
    s: ParserState,
    p: PendingSmvFile,
    out: Result<PendingSmvFile, ParseSmvError>,
) {
    if 0 <= pos < b.len() {
        lemma_next_nl(b, pos);
    }
}

/// Reading the lines of `b` from `pos` on, the `ln` before them read, in
/// state `s` with pending aggregate `p`, can end in `out`.
pub open spec fn run(
    b: Seq<u8>,
    pos: int,
    ln: int,
    s: ParserState,
    p: PendingSmvFile,
    out: Result<PendingSmvFile, ParseSmvError>,
) -> bool
    decreases b.len() - pos,
    via run_decreases
{
    if pos < 0 || pos >= b.len() {
        out == Ok::<PendingSmvFile, ParseSmvError>(p)
    } else {
        exists|s1: ParserState, p1: PendingSmvFile, e: Option<ParseSmvError>|
            #[trigger] line_step(s, p, line_at(b, pos), ln + 1, s1, p1, e) && match e {
                Some(x) => out == Err::<PendingSmvFile, ParseSmvError>(x),
                None => run(b, after_line(b, pos), ln + 1, s1, p1, out),
            }
    }
}

/// Reads one line, numbered `ln`.
pub fn read_line(state: ParserState, line: &[u8], ln: usize, p: &mut PendingSmvFile) -> (r: Result<
    ParserState,
    ParseSmvError,
>)
    requires
        state.wf(),
    ensures
        match r {
            Ok(s1) => s1.wf() && line_step(state, *old(p), line@, ln as int, s1, *final(p), None),
            Err(x) => exists|s1: ParserState|
                line_step(state, *old(p), line@, ln as int, s1, *final(p), Some(x)),
        },
{
    let ghost s0 = state;
    let ghost p0 = *p;
    if line.len() == 0 {
        return Ok(state);
    }
    let header = !space(line[0]);
    let mut state = state;
    if header {
        state = end_of_block(state, p);
    }
    let ghost sm = state;
    let ghost pm = *p;
    match state {
        ParserState::Idle => {
            if header {
                let k = first_space(line);
                let name = &line[0..k];
                let remainder = &line[k..line.len()];
                assert(name@ == line@.take(word_len(line@) as int));
                assert(remainder@ == line@.skip(word_len(line@) as int));
                let started = start_block(name, remainder);
                match started {
                    Ok(Some(s)) => {
                        assert(header_outcome(sm, pm, line@, ln as int, s, *p, None));
                        assert(end_step(s0, p0, pm, sm));
                        Ok(s)
                    },
                    Ok(None) => {
                        p.unrecognized.push(text_from_bytes(name));
                        assert(header_outcome(sm, pm, line@, ln as int, ParserState::Idle, *p, None));
                        assert(end_step(s0, p0, pm, sm));
                        Ok(ParserState::Idle)
                    },
                    Err(()) => {
                        let e = ParseSmvError::BadLine(ln);
                        assert(header_outcome(sm, pm, line@, ln as int, ParserState::Idle, *p, Some(e)));
                        assert(end_step(s0, p0, pm, sm));
                        assert(line_step(s0, p0, line@, ln as int, ParserState::Idle, *p, Some(e)));
                        Err(e)
                    },
                }
            } else {
                Ok(ParserState::Idle)
            }
        },
        other => {
            let ghost so = other;
            match read_body(other, line, p) {
                Ok(s) => {
                    assert(body_outcome(so, pm, line@, ln as int, s, *p, None));
                    if header {
                        assert(end_step(s0, p0, pm, sm));
                    }
                    Ok(s)
                },
                Err(()) => {
                    let e = ParseSmvError::BadLine(ln);
                    assert(body_outcome(so, pm, line@, ln as int, ParserState::Idle, *p, Some(e)));
                    if header {
                        assert(end_step(s0, p0, pm, sm));
                    }
                    assert(line_step(s0, p0, line@, ln as int, ParserState::Idle, *p, Some(e)));
                    Err(e)
                },
            }
        },
    }
}

/// Reads the blocks of a manifest, line by line, into a pending aggregate.
/// Lines end at a line feed, less a carriage return before it.
pub fn read_blocks(input: &[u8]) -> (r: Result<PendingSmvFile, ParseSmvError>)
    ensures
        exists|p0: PendingSmvFile| p0.is_empty() && run(input@, 0, 0, ParserState::Idle, p0, r),
{
    let len = input.len();
    let mut state = ParserState::Idle;
    let mut p = PendingSmvFile::new();
    let ghost p_init = p;
    let mut pos: usize = 0;
    let mut line_no: usize = 0;
    while pos < len
        invariant
            len == input@.len(),
            line_no <= pos <= len,
            state.wf(),
            p_init.is_empty(),
            forall|out: Result<PendingSmvFile, ParseSmvError>|
                run(input@, pos as int, line_no as int, state, p, out) ==> run(
                    input@,
                    0,
                    0,
                    ParserState::Idle,
                    p_init,
                    out,
                ),
        decreases len - pos,
    {
        let end = line_end(input, pos);
        let stop = if end < len && end > pos && input[end - 1] == 13 {
            end - 1
        } else {
            end
        };
        let line = &input[pos..stop];
        assert(line@ == line_at(input@, pos as int));
        let ghost s_old = state;
        let ghost p_old = p;
        let ghost pos_old = pos as int;
        let ghost ln_old = line_no as int;
        line_no = line_no + 1;
        pos = if end < len {
            end + 1
        } else {
            len
        };
        assert(pos == after_line(input@, pos_old));
        match read_line(state, line, line_no, &mut p) {
            Ok(s) => {
                state = s;
                assert forall|out: Result<PendingSmvFile, ParseSmvError>|
                    run(input@, pos as int, line_no as int, state, p, out) implies run(
                        input@,
                        0,
                        0,
                        ParserState::Idle,
                        p_init,
                        out,
                    ) by {
                    assert(line_step(s_old, p_old, line_at(input@, pos_old), ln_old + 1, state, p, None));
                    assert(run(input@, pos_old, ln_old, s_old, p_old, out));
                }
            },
            Err(e) => {
                let ghost s1 = choose|s1: ParserState|
                    line_step(s_old, p_old, line@, line_no as int, s1, p, Some(e));
                assert(line_step(s_old, p_old, line_at(input@, pos_old), ln_old + 1, s1, p, Some(e)));
                assert(run(input@, pos_old, ln_old, s_old, p_old, Err(e)));
                return Err(e);
            },
        }
    }
    assert(run(input@, pos as int, line_no as int, state, p, Ok(p)));
    Ok(p)
}

/// Reads a whole manifest: every line in order, then the meshes put
/// together from their per-mesh lists. No partial manifest is ever returned.
pub fn parse_smv_file(input: &[u8]) -> (r: Result<SmvFile, ParseSmvError>)
    ensures
        exists|p0: PendingSmvFile, out: Result<PendingSmvFile, ParseSmvError>|
            {
                &&& p0.is_empty()
                &&& #[trigger] run(input@, 0, 0, ParserState::Idle, p0, out)
                &&& match out {
                    Ok(p) => crate::manifest::finished(p, r),
                    Err(e) => r == Err::<SmvFile, ParseSmvError>(e),
                }
            },
{
    let read = read_blocks(input);
    let ghost out = read;
    match read {
        Ok(p) => {
            let ghost pp = p;
            let r = SmvFile::try_from(p);
            assert(crate::manifest::finished(pp, r));
            r
        },
        Err(e) => Err(e),
    }
}

} // verus!
