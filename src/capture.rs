//! The capture service's decisions: which captures one invocation makes, in
//! which order, under which file names, and how a captured image becomes the
//! bytes of a PNG file. Taking the pixels off a display and writing the files
//! is left to the caller, which performs the plan in order and stops at the
//! first failure.

use crate::pixels::{fits, png_encoding, PixelError, RgbaPixels};
use vstd::prelude::*;

verus! {

/// Left edge of the region captured from each display.
pub const REGION_X: i32 = 300;

/// Top edge of the region captured from each display.
pub const REGION_Y: i32 = 300;

/// Width of the region captured from each display.
pub const REGION_WIDTH: u32 = 300;

/// Height of the region captured from each display.
pub const REGION_HEIGHT: u32 = 300;

/// Horizontal coordinate of the point whose display is captured once more.
pub const REFERENCE_X: i32 = 100;

/// Vertical coordinate of the point whose display is captured once more.
pub const REFERENCE_Y: i32 = 100;

/// A rectangle of a display, in the display's coordinates.
#[derive(Clone, Copy, Debug, PartialEq, Eq, Structural)]
pub struct Area {
    pub x: i32,
    pub y: i32,
    pub width: u32,
    pub height: u32,
}

/// The fixed region taken from a display.
pub open spec fn region_area() -> Area {
    Area { x: REGION_X, y: REGION_Y, width: REGION_WIDTH, height: REGION_HEIGHT }
}

/// Which display a capture reads.
#[derive(Clone, Copy, Debug, PartialEq, Eq, Structural)]
pub enum CaptureSource {
    /// The display at this position in the enumeration.
    Display(usize),
    /// The display that contains this point.
    ContainingPoint(i32, i32),
}

/// One capture: where from, which part (`None`: the full frame), and the name
/// of the file it is saved to.
#[derive(Clone, Debug)]
pub struct CaptureOp {
    pub source: CaptureSource,
    pub area: Option<Area>,
    pub file_name: Vec<u8>,
}

pub ghost struct CaptureOpModel {
    pub source: CaptureSource,
    pub area: Option<Area>,
    pub file_name: Seq<u8>,
}

impl View for CaptureOp {
    type V = CaptureOpModel;

    open spec fn view(&self) -> CaptureOpModel {
        CaptureOpModel { source: self.source, area: self.area, file_name: self.file_name@ }
    }
}

/// The decimal digits of `n`, in ASCII, most significant first.
pub open spec fn decimal(n: nat) -> Seq<u8>
    decreases n,
{
    if n < 10 {
        seq![(('0' as u8) + n) as u8]
    } else {
        decimal(n / 10) + seq![(('0' as u8) + n % 10) as u8]
    }
}

/// The directory that captures are saved under.
pub open spec fn output_dir() -> Seq<u8> {
    seq![('t' as u8), ('a' as u8), ('r' as u8), ('g' as u8), ('e' as u8), ('t' as u8), ('/' as u8)]
}

/// The file of a display's full frame: `target/<id>.png`.
pub open spec fn full_file_name(id: u32) -> Seq<u8> {
    output_dir() + decimal(id as nat) + seq![('.' as u8), ('p' as u8), ('n' as u8), ('g' as u8)]
}

/// The file of a display's region: `target/<id>-2.png`.
pub open spec fn region_file_name(id: u32) -> Seq<u8> {
    output_dir() + decimal(id as nat) + seq![('-' as u8), ('2' as u8), ('.' as u8), ('p' as u8), ('n' as u8), ('g' as u8)]
}

/// The file of the region around the reference point:
/// `target/capture_display_with_point.png`, the same on every invocation.
pub open spec fn reference_file_name() -> Seq<u8> {
    seq![('t' as u8), ('a' as u8), ('r' as u8), ('g' as u8), ('e' as u8), ('t' as u8), ('/' as u8), ('c' as u8), ('a' as u8), ('p' as u8), ('t' as u8), ('u' as u8), ('r' as u8), ('e' as u8), ('_' as u8), ('d' as u8), ('i' as u8), ('s' as u8), ('p' as u8), ('l' as u8), ('a' as u8), ('y' as u8), ('_' as u8), ('w' as u8), ('i' as u8), ('t' as u8), ('h' as u8), ('_' as u8), ('p' as u8), ('o' as u8), ('i' as u8), ('n' as u8), ('t' as u8), ('.' as u8), ('p' as u8), ('n' as u8), ('g' as u8)]
}

/// The capture of display `i`'s full frame, identified as `id`.
pub open spec fn full_op(i: int, id: u32) -> CaptureOpModel {
    CaptureOpModel { source: CaptureSource::Display(i as usize), area: None, file_name: full_file_name(id) }
}

/// The capture of display `i`'s region, identified as `id`.
pub open spec fn region_op(i: int, id: u32) -> CaptureOpModel {
    CaptureOpModel {
        source: CaptureSource::Display(i as usize),
        area: Some(region_area()),
        file_name: region_file_name(id),
    }
}

/// The capture of the region of the display under the reference point.
pub open spec fn reference_op() -> CaptureOpModel {
    CaptureOpModel {
        source: CaptureSource::ContainingPoint(REFERENCE_X, REFERENCE_Y),
        area: Some(region_area()),
        file_name: reference_file_name(),
    }
}

/// The capture at position `k` of an invocation's plan over displays `ids`
/// (listed in enumeration order): for each display its full frame, then its
/// region; last, the region of the display that holds the reference point.
pub open spec fn planned_op(ids: Seq<u32>, k: int) -> CaptureOpModel {
    if k < 2 * ids.len() {
        if k % 2 == 0 {
            full_op(k / 2, ids[k / 2])
        } else {
            region_op(k / 2, ids[k / 2])
        }
    } else {
        reference_op()
    }
}

/// The whole plan of one invocation over displays `ids`.
pub open spec fn capture_plan_model(ids: Seq<u32>) -> Seq<CaptureOpModel> {
    Seq::new(2 * ids.len() + 1, |k: int| planned_op(ids, k))
}

/// Why a capture invocation stopped. The first failure ends the invocation;
/// it is returned to the caller rather than ending the process.
#[derive(Clone, Copy, Debug, PartialEq, Eq, Structural)]
pub enum CaptureError {
    /// No display was enumerated.
    NoDisplays,
    /// Taking the pixels off a display failed.
    CaptureFailed,
    /// The captured pixels do not fit their dimensions.
    BadPixels(PixelError),
    /// The PNG encoder failed.
    EncodeFailed,
    /// Writing a file failed.
    WriteFailed,
}

/// Over `N` enumerated displays an invocation saves exactly `2N + 1` files:
/// for display `i`, its full frame as `target/<id>.png` and its region as
/// `target/<id>-2.png`, two distinct names fixed by the display's identifier;
/// and last the region of the display under the reference point, under a name
/// that does not depend on the displays.
pub proof fn lemma_capture_outputs(ids: Seq<u32>)
    requires
        ids.len() >= 1,
    ensures
        capture_plan_model(ids).len() == 2 * ids.len() + 1,
        forall|i: int|
            0 <= i < ids.len() ==> #[trigger] capture_plan_model(ids)[2 * i] == full_op(i, ids[i])
                && capture_plan_model(ids)[2 * i + 1] == region_op(i, ids[i]),
        forall|i: int|
            0 <= i < ids.len() ==> #[trigger] full_file_name(ids[i]) != region_file_name(ids[i]),
        capture_plan_model(ids)[2 * ids.len() as int] == reference_op(),
{
    assert forall|i: int| 0 <= i < ids.len() implies #[trigger] capture_plan_model(ids)[2 * i]
        == full_op(i, ids[i]) && capture_plan_model(ids)[2 * i + 1] == region_op(i, ids[i]) by {
        assert((2 * i) / 2 == i && (2 * i) % 2 == 0);
        assert((2 * i + 1) / 2 == i && (2 * i + 1) % 2 == 1);
    }
    assert forall|i: int| 0 <= i < ids.len() implies #[trigger] full_file_name(ids[i])
        != region_file_name(ids[i]) by {
        assert(full_file_name(ids[i]).len() + 2 == region_file_name(ids[i]).len());
    }
}

proof fn lemma_decimal_digits(n: nat)
    ensures
        decimal(n).len() >= 1,
        n >= 10 ==> decimal(n).len() >= 2,
        forall|i: int| 0 <= i < decimal(n).len() ==> ('0' as u8) <= #[trigger] decimal(n)[i] <= ('9' as u8),
        decimal(n).last() == (('0' as u8) + n % 10) as u8,
    decreases n,
{
    if n >= 10 {
        lemma_decimal_digits(n / 10);
        let d = decimal(n);
        assert forall|i: int| 0 <= i < d.len() implies ('0' as u8) <= #[trigger] d[i] <= ('9' as u8) by {
            if i < decimal(n / 10).len() {
                assert(d[i] == decimal(n / 10)[i]);
            }
        }
    }
}

proof fn lemma_decimal_injective(a: nat, b: nat)
    requires
        decimal(a) == decimal(b),
    ensures
        a == b,
    decreases a,
{
    lemma_decimal_digits(a);
    lemma_decimal_digits(b);
    assert(a % 10 == b % 10);
    if a >= 10 && b >= 10 {
        assert(decimal(a / 10) =~= decimal(a).drop_last());
        assert(decimal(b / 10) =~= decimal(b).drop_last());
        lemma_decimal_injective(a / 10, b / 10);
    } else if a >= 10 || b >= 10 {
        assert(false);
    }
}

/// Each file name belongs to one capture of one display: displays with
/// different identifiers save to different files, and no full frame is ever
/// saved under the name of a region.
pub proof fn lemma_file_names_distinct(a: u32, b: u32)
    ensures
        full_file_name(a) == full_file_name(b) ==> a == b,
        region_file_name(a) == region_file_name(b) ==> a == b,
        full_file_name(a) != region_file_name(b),
{
    if full_file_name(a) == full_file_name(b) {
        let n = full_file_name(a).len();
        assert(decimal(a as nat) =~= full_file_name(a).subrange(7, n - 4));
        assert(decimal(b as nat) =~= full_file_name(b).subrange(7, n - 4));
        lemma_decimal_injective(a as nat, b as nat);
    }
    if region_file_name(a) == region_file_name(b) {
        let n = region_file_name(a).len();
        assert(decimal(a as nat) =~= region_file_name(a).subrange(7, n - 6));
        assert(decimal(b as nat) =~= region_file_name(b).subrange(7, n - 6));
        lemma_decimal_injective(a as nat, b as nat);
    }
    lemma_decimal_digits(a as nat);
    lemma_decimal_digits(b as nat);
    let f = full_file_name(a);
    let r = region_file_name(b);
    if f == r {
        let n = f.len();
        let da = decimal(a as nat);
        assert(da.len() == decimal(b as nat).len() + 2);
        assert(r[n - 6] == ('-' as u8));
        assert(f[n - 6] == da[da.len() - 2]);
    }
}

fn push_decimal(out: &mut Vec<u8>, n: u32)
    ensures
        final(out)@ == old(out)@ + decimal(n as nat),
    decreases n,
{
    if n >= 10 {
        push_decimal(out, n / 10);
    }
    out.push(('0' as u8) + (n % 10) as u8);
    proof {
        if n >= 10 {
            assert(final(out)@ =~= old(out)@ + decimal(n as nat / 10) + seq![
                (('0' as u8) + (n as nat) % 10) as u8,
            ]);
        } else {
            assert(final(out)@ =~= old(out)@ + decimal(n as nat));
        }
    }
}

/// The name of the file that a display's full frame (`region == false`) or
/// region (`region == true`) is saved to.
pub fn display_file_name(id: u32, region: bool) -> (r: Vec<u8>)
    ensures
        r@ == if region {
            region_file_name(id)
        } else {
            full_file_name(id)
        },
{
    let mut name: Vec<u8> = vec![('t' as u8), ('a' as u8), ('r' as u8), ('g' as u8), ('e' as u8), ('t' as u8), ('/' as u8)];
    assert(name@ =~= output_dir());
    push_decimal(&mut name, id);
    if region {
        name.push('-' as u8);
        name.push('2' as u8);
    }
    name.push('.' as u8);
    name.push('p' as u8);
    name.push('n' as u8);
    name.push('g' as u8);
    if region {
        assert(name@ =~= region_file_name(id));
    } else {
        assert(name@ =~= full_file_name(id));
    }
    name
}

/// Plans one invocation of the capture service over the enumerated displays,
/// given by their identifiers in enumeration order.
pub fn capture_plan(display_ids: &Vec<u32>) -> (r: Result<Vec<CaptureOp>, CaptureError>)
    ensures
        r is Err <==> display_ids@.len() == 0,
        r is Err ==> r->Err_0 == CaptureError::NoDisplays,
        r is Ok ==> r->Ok_0@.map_values(|op: CaptureOp| op@) == capture_plan_model(display_ids@),
{
    if display_ids.len() == 0 {
        return Err(CaptureError::NoDisplays);
    }
    let region = Area { x: REGION_X, y: REGION_Y, width: REGION_WIDTH, height: REGION_HEIGHT };
    let mut ops: Vec<CaptureOp> = Vec::new();
    let mut i: usize = 0;
    while i < display_ids.len()
        invariant
            i <= display_ids@.len(),
            region == region_area(),
            ops@.len() == 2 * i,
            forall|k: int| 0 <= k < 2 * i ==> #[trigger] ops@[k]@ == planned_op(display_ids@, k),
        decreases display_ids@.len() - i,
    {
        let id = display_ids[i];
        ops.push(CaptureOp {
            source: CaptureSource::Display(i),
            area: None,
            file_name: display_file_name(id, false),
        });
        ops.push(CaptureOp {
            source: CaptureSource::Display(i),
            area: Some(region),
            file_name: display_file_name(id, true),
        });
        proof {
            let k0 = 2 * i as int;
            assert(k0 / 2 == i as int && k0 % 2 == 0);
            assert((k0 + 1) / 2 == i as int && (k0 + 1) % 2 == 1);
        }
        i = i + 1;
    }
    let reference: Vec<u8> = vec![('t' as u8), ('a' as u8), ('r' as u8), ('g' as u8), ('e' as u8), ('t' as u8), ('/' as u8), ('c' as u8), ('a' as u8), ('p' as u8), ('t' as u8), ('u' as u8), ('r' as u8), ('e' as u8), ('_' as u8), ('d' as u8), ('i' as u8), ('s' as u8), ('p' as u8), ('l' as u8), ('a' as u8), ('y' as u8), ('_' as u8), ('w' as u8), ('i' as u8), ('t' as u8), ('h' as u8), ('_' as u8), ('p' as u8), ('o' as u8), ('i' as u8), ('n' as u8), ('t' as u8), ('.' as u8), ('p' as u8), ('n' as u8), ('g' as u8)];
    ops.push(CaptureOp {
        source: CaptureSource::ContainingPoint(REFERENCE_X, REFERENCE_Y),
        area: Some(region),
        file_name: reference,
    });
    proof {
        assert(reference@ =~= reference_file_name());
        assert(ops@.map_values(|op: CaptureOp| op@) =~= capture_plan_model(display_ids@));
    }
    Ok(ops)
}

/// Turns the pixels captured for one step of the plan into the bytes of its PNG file.
pub fn encode_capture(rgba: Vec<u8>, width: u32, height: u32) -> (r: Result<Vec<u8>, CaptureError>)
    ensures
        r is Ok <==> fits(rgba@.len(), width, height) && png_encoding(rgba@, width, height) is Some,
        r is Ok ==> r->Ok_0@ == png_encoding(rgba@, width, height)->0,
        !fits(rgba@.len(), width, height) ==> r is Err && r->Err_0 is BadPixels,
        fits(rgba@.len(), width, height) && png_encoding(rgba@, width, height) is None ==> r is Err
            && r->Err_0 == CaptureError::EncodeFailed,
{
    match RgbaPixels::from_rgba(rgba, width, height) {
        Ok(pixels) => match pixels.to_png() {
            Some(png) => Ok(png),
            None => Err(CaptureError::EncodeFailed),
        },
        Err(e) => Err(CaptureError::BadPixels(e)),
    }
}

} // verus!
