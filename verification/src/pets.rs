//! Drawing the ambient pet and the picker preview with terminal image protocols.
//!
//! A pet frame is drawn at a cell position with the Kitty graphics protocol (inline or by file
//! reference) or as Sixel. Between frames the renderer deletes the previous Kitty placement and
//! blanks the rows a Sixel image covered. Each draw is planned as a sequence of steps (terminal
//! writes and changes of the render state) and then carried out on a terminal writer; the image
//! payload itself is prepared by the caller, which reads the frame files.

use crate::geometry::sat_add_u16;
use crossterm::Command;
use vstd::prelude::*;

verus! {

#[verifier::external_type_specification]
#[verifier::external_body]
pub struct ExIoError(std::io::Error);

#[verifier::external_type_specification]
#[verifier::external_body]
pub struct ExAnyhowError(anyhow::Error);

/// The terminal image protocols the pet renderer speaks.
#[derive(Clone, Copy, Debug, PartialEq, Eq, Structural)]
pub enum ImageProtocol {
    /// Kitty graphics with the PNG bytes inline.
    Kitty,
    /// Kitty graphics referring to a local PNG file.
    KittyLocalFile,
    Sixel,
}

/// What the terminal supports, as detected from its environment.
#[derive(Clone, Copy, Debug, PartialEq, Eq, Structural)]
pub enum PetImageSupport {
    Supported(ImageProtocol),
    Unsupported,
}

/// Whether the protocol places images by Kitty image id.
pub open spec fn is_kitty_spec(protocol: ImageProtocol) -> bool {
    protocol == ImageProtocol::Kitty || protocol == ImageProtocol::KittyLocalFile
}

pub fn is_kitty_protocol(protocol: ImageProtocol) -> (r: bool)
    ensures
        r == is_kitty_spec(protocol),
{
    match protocol {
        ImageProtocol::Kitty | ImageProtocol::KittyLocalFile => true,
        ImageProtocol::Sixel => false,
    }
}

/// Local image previews need Kitty's local-file transport, so the image bytes never pass
/// through the application.
pub fn local_file_image_previews_supported(support: PetImageSupport) -> (r: bool)
    ensures
        r == (support == PetImageSupport::Supported(ImageProtocol::KittyLocalFile)),
{
    match support {
        PetImageSupport::Supported(ImageProtocol::KittyLocalFile) => true,
        _ => false,
    }
}

/// Where and how a pet frame is drawn.
#[derive(Clone, Copy, Debug, PartialEq, Eq, Structural)]
pub struct AmbientPetDraw {
    pub protocol: ImageProtocol,
    pub x: u16,
    pub y: u16,
    /// First row a Sixel frame may have painted.
    pub clear_top_y: u16,
    pub columns: u16,
    pub rows: u16,
    pub height_px: u32,
}

/// The cells a Sixel frame covered, blanked before the next frame.
#[derive(Clone, Copy, Debug, PartialEq, Eq, Structural)]
pub struct SixelClearArea {
    pub x: u16,
    pub clear_top_y: u16,
    pub clear_bottom_y: u16,
    pub columns: u16,
}

pub open spec fn clear_area_of(request: AmbientPetDraw) -> SixelClearArea {
    SixelClearArea {
        x: request.x,
        clear_top_y: request.clear_top_y,
        clear_bottom_y: sat_add_u16(request.y, request.rows),
        columns: request.columns,
    }
}

impl SixelClearArea {
    /// The cells a Sixel frame drawn for `request` covers.
    pub fn from_draw(request: &AmbientPetDraw) -> (r: Self)
        ensures
            r == clear_area_of(*request),
    {
        SixelClearArea {
            x: request.x,
            clear_top_y: request.clear_top_y,
            clear_bottom_y: request.y.saturating_add(request.rows),
            columns: request.columns,
        }
    }
}

/// What the renderer remembers between frames.
#[derive(Clone, Copy, Debug, PartialEq, Eq, Structural)]
pub struct PetImageRenderState {
    pub last_sixel_clear_area: Option<SixelClearArea>,
    pub last_protocol: Option<ImageProtocol>,
}

impl Default for PetImageRenderState {
    fn default() -> (r: Self)
        ensures
            r.last_sixel_clear_area is None,
            r.last_protocol is None,
    {
        PetImageRenderState { last_sixel_clear_area: None, last_protocol: None }
    }
}

/// Why a pet frame could not be drawn.
#[derive(Debug)]
pub enum PetImageRenderError {
    /// Writing to the terminal failed.
    Terminal(std::io::Error),
    /// The frame could not be prepared.
    Asset(anyhow::Error),
}

/// The underlying error of a render error.
pub enum PetImageErrorSource<'a> {
    Terminal(&'a std::io::Error),
    Asset(&'a anyhow::Error),
}

impl PetImageRenderError {
    /// The underlying error: every render error has one.
    pub fn source(&self) -> (r: Option<PetImageErrorSource<'_>>)
        ensures
            r is Some,
            self is Terminal ==> r matches Some(PetImageErrorSource::Terminal(_)),
            self is Asset ==> r matches Some(PetImageErrorSource::Asset(_)),
    {
        match self {
            PetImageRenderError::Terminal(err) => Some(PetImageErrorSource::Terminal(err)),
            PetImageRenderError::Asset(err) => Some(PetImageErrorSource::Asset(err)),
        }
    }
}

/// A terminal that accepts bytes, as `std::io::Write` does.
///
/// A terminal whose accepted bytes are modelled says so with `obeys_written_spec`; for it,
/// `written` is what it has accepted so far, and the methods' contracts say how that grows. A
/// terminal that never fails, or always fails, says so with `never_fails` or `always_fails`.
pub trait TerminalWriter {
    /// Every write and flush of this terminal succeeds.
    open spec fn never_fails() -> bool {
        false
    }

    /// Every write and flush of this terminal fails.
    open spec fn always_fails() -> bool {
        false
    }

    /// Whether this terminal's accepted bytes are modelled by `written`.
    open spec fn obeys_written_spec() -> bool {
        false
    }

    /// The bytes the terminal has accepted so far.
    open spec fn written(&self) -> Seq<u8> {
        Seq::empty()
    }

    /// Writes all of `bytes`; on failure, only a leading part of them may have been accepted.
    fn write_all(&mut self, bytes: &[u8]) -> (r: Result<(), std::io::Error>)
        ensures
            Self::obeys_written_spec() ==> (r is Ok ==> final(self).written() == old(self).written() + bytes@),
            Self::obeys_written_spec() ==> (r is Err ==> exists|j: int|
                0 <= j <= bytes@.len() && final(self).written() == old(self).written() + bytes@.take(j)),
            Self::never_fails() ==> r is Ok,
            Self::always_fails() ==> r is Err,
    ;

    /// Flushes the terminal; it accepts no new bytes.
    fn flush(&mut self) -> (r: Result<(), std::io::Error>)
        ensures
            Self::obeys_written_spec() ==> final(self).written() == old(self).written(),
            Self::never_fails() ==> r is Ok,
            Self::always_fails() ==> r is Err,
    ;
}

/// An in-memory terminal that keeps what was written.
impl TerminalWriter for Vec<u8> {
    open spec fn never_fails() -> bool {
        true
    }

    open spec fn obeys_written_spec() -> bool {
        true
    }

    open spec fn written(&self) -> Seq<u8> {
        self@
    }

    fn write_all(&mut self, bytes: &[u8]) -> (r: Result<(), std::io::Error>)
        ensures
            r is Ok,
            final(self)@ == old(self)@ + bytes@,
    {
        let mut i: usize = 0;
        while i < bytes.len()
            invariant
                i <= bytes.len(),
                self@ == old(self)@ + bytes@.take(i as int),
            decreases bytes.len() - i,
        {
            self.push(bytes[i]);
            i += 1;
            assert(self@ =~= old(self)@ + bytes@.take(i as int));
        }
        assert(bytes@.take(bytes@.len() as int) =~= bytes@);
        Ok(())
    }

    fn flush(&mut self) -> (r: Result<(), std::io::Error>)
        ensures
            r is Ok,
            final(self)@ == old(self)@,
    {
        Ok(())
    }
}

/// The decimal digits of `n`, in ASCII.
pub open spec fn decimal(n: nat) -> Seq<u8>
    decreases n,
{
    if n < 10 {
        seq![(48 + n) as u8]
    } else {
        decimal(n / 10).push((48 + n % 10) as u8)
    }
}

/// Appends the decimal digits of `n`.
pub fn push_decimal(out: &mut Vec<u8>, n: u32)
    ensures
        final(out)@ == old(out)@ + decimal(n as nat),
    decreases n,
{
    if n >= 10 {
        push_decimal(out, n / 10);
    }
    out.push(48u8 + (n % 10) as u8);
    proof {
        if n >= 10 {
            assert(decimal(n as nat) == decimal((n / 10) as nat).push((48 + n % 10) as u8));
        }
    }
}

/// Appends `bytes`.
pub(crate) fn push_all(out: &mut Vec<u8>, bytes: &[u8])
    ensures
        final(out)@ == old(out)@ + bytes@,
{
    let n = bytes.len();
    let mut i: usize = 0;
    while i < n
        invariant
            0 <= i <= n,
            n == bytes@.len(),
            out@ == old(out)@ + bytes@.take(i as int),
        decreases n - i,
    {
        out.push(bytes[i]);
        i += 1;
        assert(out@ =~= old(out)@ + bytes@.take(i as int));
    }
    assert(bytes@.take(n as int) =~= bytes@);
}

/// crossterm's `SavePosition`: 0x1bu8 7.
pub open spec fn save_position_bytes() -> Seq<u8> {
    seq![0x1bu8, 0x37u8]
}

/// crossterm's `RestorePosition`: 0x1bu8 8.
pub open spec fn restore_position_bytes() -> Seq<u8> {
    seq![0x1bu8, 0x38u8]
}

/// crossterm's `MoveTo(x, y)`: CSI row;column H, one-based.
pub open spec fn move_to_bytes(x: u16, y: u16) -> Seq<u8> {
    seq![0x1bu8, 0x5bu8] + decimal((y + 1) as nat) + seq![0x3bu8] + decimal((x + 1) as nat) + seq![0x48u8]
}

/// crossterm's `SavePosition` command as bytes.
#[verifier::external_body]
pub(crate) fn save_position() -> (r: Vec<u8>)
    ensures
        r@ == save_position_bytes(),
{
    let mut text = String::new();
    let _ = crossterm::cursor::SavePosition.write_ansi(&mut text);
    text.into_bytes()
}

/// crossterm's `RestorePosition` command as bytes.
#[verifier::external_body]
pub(crate) fn restore_position() -> (r: Vec<u8>)
    ensures
        r@ == restore_position_bytes(),
{
    let mut text = String::new();
    let _ = crossterm::cursor::RestorePosition.write_ansi(&mut text);
    text.into_bytes()
}

/// crossterm's `MoveTo(x, y)` command as bytes: the CSI sequence with the one-based row and
/// column in decimal. crossterm adds one to each coordinate, so neither may be `u16::MAX`.
#[verifier::external_body]
pub(crate) fn move_to(x: u16, y: u16) -> (r: Vec<u8>)
    requires
        x < u16::MAX,
        y < u16::MAX,
    ensures
        r@ == move_to_bytes(x, y),
{
    let mut text = String::new();
    let _ = crossterm::cursor::MoveTo(x, y).write_ansi(&mut text);
    text.into_bytes()
}

/// The Kitty graphics command that deletes the placements of image `image_id`, quietly:
/// `0x1bu8 _ G a=d,d=I,i=<id>,q=2; 0x1bu8 \`.
pub open spec fn kitty_delete_bytes(image_id: u32) -> Seq<u8> {
    seq![0x1bu8, 0x5fu8, 0x47u8, 0x61u8, 0x3du8, 0x64u8, 0x2cu8, 0x64u8, 0x3du8, 0x49u8, 0x2cu8, 0x69u8, 0x3du8] + decimal(
        image_id as nat,
    ) + seq![0x2cu8, 0x71u8, 0x3du8, 0x32u8, 0x3bu8, 0x1bu8, 0x5cu8]
}

/// The Kitty graphics command that deletes the placements of image `image_id`.
pub fn kitty_delete_image(image_id: u32) -> (r: Vec<u8>)
    ensures
        r@ == kitty_delete_bytes(image_id),
{
    let mut out: Vec<u8> = vec![0x1bu8, 0x5fu8, 0x47u8, 0x61u8, 0x3du8, 0x64u8, 0x2cu8, 0x64u8, 0x3du8, 0x49u8, 0x2cu8, 0x69u8, 0x3du8];
    push_decimal(&mut out, image_id);
    let tail: Vec<u8> = vec![0x2cu8, 0x71u8, 0x3du8, 0x32u8, 0x3bu8, 0x1bu8, 0x5cu8];
    push_all(&mut out, tail.as_slice());
    assert(out@ =~= kitty_delete_bytes(image_id));
    out
}

/// One step of drawing a frame.
pub enum PetImageStep {
    /// Write bytes to the terminal.
    Write(Vec<u8>),
    /// Require the frame's payload; an unprepared frame ends the draw with an asset error.
    CheckPayload,
    /// Write the frame's payload.
    WritePayload,
    Flush,
    SetLastProtocol(Option<ImageProtocol>),
    SetSixelClearArea(Option<SixelClearArea>),
}

pub enum StepModel {
    Write(Seq<u8>),
    CheckPayload,
    WritePayload,
    Flush,
    SetLastProtocol(Option<ImageProtocol>),
    SetSixelClearArea(Option<SixelClearArea>),
}

impl View for PetImageStep {
    type V = StepModel;

    open spec fn view(&self) -> StepModel {
        match self {
            PetImageStep::Write(bytes) => StepModel::Write(bytes@),
            PetImageStep::CheckPayload => StepModel::CheckPayload,
            PetImageStep::WritePayload => StepModel::WritePayload,
            PetImageStep::Flush => StepModel::Flush,
            PetImageStep::SetLastProtocol(p) => StepModel::SetLastProtocol(*p),
            PetImageStep::SetSixelClearArea(a) => StepModel::SetSixelClearArea(*a),
        }
    }
}

pub open spec fn steps_view(steps: Seq<PetImageStep>) -> Seq<StepModel> {
    steps.map_values(|s: PetImageStep| s@)
}

/// The blank row of a clear area.
pub open spec fn blank_bytes(columns: u16) -> Seq<u8> {
    Seq::new(columns as nat, |i: int| 0x20u8)
}

/// The steps that blank the rows `clear_top_y..row` of an area.
pub open spec fn clear_rows_steps(area: SixelClearArea, row: int) -> Seq<StepModel>
    decreases row - area.clear_top_y,
{
    if row <= area.clear_top_y {
        Seq::empty()
    } else {
        clear_rows_steps(area, row - 1) + seq![
            StepModel::Write(move_to_bytes(area.x, (row - 1) as u16)),
            StepModel::Write(blank_bytes(area.columns)),
        ]
    }
}

/// The steps that blank a Sixel area: each row's cells overwritten with spaces.
pub open spec fn clear_area_steps(area: SixelClearArea) -> Seq<StepModel> {
    clear_rows_steps(area, area.clear_bottom_y as int)
}

/// The steps that blank the previous Sixel area (unless the new frame covers the same cells) and
/// the new frame's area, remembering the new area.
pub open spec fn sixel_clear_steps(previous: Option<SixelClearArea>, current: Option<SixelClearArea>) -> Seq<StepModel> {
    let clear_previous = match previous {
        Some(p) => if Some(p) != current {
            seq![StepModel::SetSixelClearArea(None)] + clear_area_steps(p)
        } else {
            seq![StepModel::SetSixelClearArea(None)]
        },
        None => Seq::empty(),
    };
    let clear_current = match current {
        Some(area) => clear_area_steps(area) + seq![StepModel::SetSixelClearArea(Some(area))],
        None => Seq::empty(),
    };
    clear_previous + clear_current
}

/// The steps of drawing a pet frame (or clearing it when there is no request).
pub open spec fn pet_image_plan_spec(state: PetImageRenderState, image_id: u32, request: Option<AmbientPetDraw>) -> Seq<
    StepModel,
> {
    match request {
        None => {
            let delete = if state.last_protocol matches Some(p) && is_kitty_spec(p) {
                seq![StepModel::Write(kitty_delete_bytes(image_id))]
            } else {
                Seq::empty()
            };
            let clear = match state.last_sixel_clear_area {
                Some(area) => seq![
                    StepModel::SetSixelClearArea(None),
                    StepModel::Write(save_position_bytes()),
                ] + clear_area_steps(area) + seq![StepModel::Write(restore_position_bytes())],
                None => Seq::empty(),
            };
            seq![StepModel::SetLastProtocol(None)] + delete + clear + seq![StepModel::Flush]
        },
        Some(req) => {
            let delete = if (state.last_protocol matches Some(p) && is_kitty_spec(p)) || is_kitty_spec(req.protocol) {
                seq![StepModel::Write(kitty_delete_bytes(image_id))]
            } else {
                Seq::empty()
            };
            let current = if req.protocol == ImageProtocol::Sixel {
                Some(clear_area_of(req))
            } else {
                None
            };
            seq![StepModel::SetLastProtocol(None)] + delete + seq![
                StepModel::SetLastProtocol(Some(req.protocol)),
                StepModel::CheckPayload,
                StepModel::Write(save_position_bytes()),
            ] + sixel_clear_steps(state.last_sixel_clear_area, current) + seq![
                StepModel::Write(move_to_bytes(req.x, req.y)),
                StepModel::WritePayload,
                StepModel::Write(restore_position_bytes()),
                StepModel::Flush,
            ]
        },
    }
}

/// The cursor positions of a draw fit crossterm's one-based coordinates.
pub open spec fn drawable_area(area: SixelClearArea) -> bool {
    area.x < u16::MAX
}

pub open spec fn plannable(state: PetImageRenderState, request: Option<AmbientPetDraw>) -> bool {
    &&& state.last_sixel_clear_area matches Some(a) ==> drawable_area(a)
    &&& request matches Some(r) ==> r.x < u16::MAX && r.y < u16::MAX
}

/// A row of `columns` spaces.
fn blank_row(columns: u16) -> (r: Vec<u8>)
    ensures
        r@ == blank_bytes(columns),
{
    let mut blank: Vec<u8> = Vec::new();
    let mut c: u16 = 0;
    while c < columns
        invariant
            0 <= c <= columns,
            blank@ == Seq::new(c as nat, |i: int| 0x20u8),
        decreases columns - c,
    {
        blank.push(0x20u8);
        c += 1;
        assert(blank@ =~= Seq::new(c as nat, |i: int| 0x20u8));
    }
    blank
}

/// Appends the steps that blank `area`.
fn push_clear_area(steps: &mut Vec<PetImageStep>, area: SixelClearArea)
    requires
        drawable_area(area),
    ensures
        steps_view(final(steps)@) == steps_view(old(steps)@) + clear_area_steps(area),
{
    let ghost start = steps_view(steps@);
    if area.clear_top_y >= area.clear_bottom_y {
        assert(clear_rows_steps(area, area.clear_bottom_y as int) == Seq::<StepModel>::empty());
        assert(steps_view(steps@) =~= start + clear_area_steps(area));
        return;
    }
    let mut row: u16 = area.clear_top_y;
    assert(clear_rows_steps(area, area.clear_top_y as int) == Seq::<StepModel>::empty());
    assert(steps_view(steps@) =~= start + clear_rows_steps(area, row as int));
    while row < area.clear_bottom_y
        invariant
            area.clear_top_y <= row <= area.clear_bottom_y,
            drawable_area(area),
            steps_view(steps@) == start + clear_rows_steps(area, row as int),
        decreases area.clear_bottom_y - row,
    {
        let ghost before = steps@;
        let moved = move_to(area.x, row);
        let blank = blank_row(area.columns);
        steps.push(PetImageStep::Write(moved));
        steps.push(PetImageStep::Write(blank));
        proof {
            let tail = seq![StepModel::Write(move_to_bytes(area.x, row)), StepModel::Write(blank_bytes(area.columns))];
            assert(clear_rows_steps(area, row + 1) == clear_rows_steps(area, row as int) + tail);
            assert(steps_view(steps@) =~= steps_view(before) + tail);
        }
        row += 1;
    }
}

/// Appends one step.
fn push_step(steps: &mut Vec<PetImageStep>, step: PetImageStep)
    ensures
        steps_view(final(steps)@) == steps_view(old(steps)@).push(step@),
{
    let ghost m = step@;
    steps.push(step);
    assert(steps_view(steps@) =~= steps_view(old(steps)@).push(m));
}

/// Appends the steps that clear the last frame.
fn push_clear_plan(steps: &mut Vec<PetImageStep>, state: &PetImageRenderState, image_id: u32, last_was_kitty: bool)
    requires
        plannable(*state, None),
        last_was_kitty == (state.last_protocol matches Some(p) && is_kitty_spec(p)),
        steps_view(old(steps)@) == seq![StepModel::SetLastProtocol(None)],
    ensures
        steps_view(final(steps)@) == pet_image_plan_spec(*state, image_id, None),
{
    let ghost s0 = steps_view(steps@);
    if last_was_kitty {
        push_step(steps, PetImageStep::Write(kitty_delete_image(image_id)));
    }
    let ghost s1 = steps_view(steps@);
    let ghost delete = if state.last_protocol matches Some(p) && is_kitty_spec(p) {
        seq![StepModel::Write(kitty_delete_bytes(image_id))]
    } else {
        Seq::empty()
    };
    assert(s1 =~= s0 + delete);
    if let Some(area) = state.last_sixel_clear_area {
        push_step(steps, PetImageStep::SetSixelClearArea(None));
        push_step(steps, PetImageStep::Write(save_position()));
        push_clear_area(steps, area);
        push_step(steps, PetImageStep::Write(restore_position()));
    }
    let ghost s2 = steps_view(steps@);
    let ghost clear = match state.last_sixel_clear_area {
        Some(area) => seq![
            StepModel::SetSixelClearArea(None),
            StepModel::Write(save_position_bytes()),
        ] + clear_area_steps(area) + seq![StepModel::Write(restore_position_bytes())],
        None => Seq::empty(),
    };
    assert(s2 =~= s1 + clear);
    push_step(steps, PetImageStep::Flush);
    assert(steps_view(steps@) =~= seq![StepModel::SetLastProtocol(None)] + delete + clear + seq![
        StepModel::Flush,
    ]);

}

/// Appends the steps that blank the previous and the new Sixel areas.
fn push_sixel_clears(steps: &mut Vec<PetImageStep>, previous: Option<SixelClearArea>, current: Option<SixelClearArea>)
    requires
        previous matches Some(a) ==> drawable_area(a),
        current matches Some(a) ==> drawable_area(a),
    ensures
        steps_view(final(steps)@) == steps_view(old(steps)@) + sixel_clear_steps(previous, current),
{
    let ghost s0 = steps_view(steps@);
    if let Some(p) = previous {
        push_step(steps, PetImageStep::SetSixelClearArea(None));
        if Some(p) != current {
            push_clear_area(steps, p);
        }
    }
    let ghost s1 = steps_view(steps@);
    let ghost clear_previous = match previous {
        Some(p) => if Some(p) != current {
            seq![StepModel::SetSixelClearArea(None)] + clear_area_steps(p)
        } else {
            seq![StepModel::SetSixelClearArea(None)]
        },
        None => Seq::empty(),
    };
    assert(s1 =~= s0 + clear_previous);
    if let Some(area) = current {
        push_clear_area(steps, area);
        push_step(steps, PetImageStep::SetSixelClearArea(Some(area)));
    }
    let ghost clear_current = match current {
        Some(area) => clear_area_steps(area) + seq![StepModel::SetSixelClearArea(Some(area))],
        None => Seq::empty(),
    };
    assert(steps_view(steps@) =~= s1 + clear_current);
    assert(steps_view(steps@) =~= s0 + sixel_clear_steps(previous, current));
}

/// Appends the steps that draw a frame.
fn push_draw_plan(
    steps: &mut Vec<PetImageStep>,
    state: &PetImageRenderState,
    image_id: u32,
    req: &AmbientPetDraw,
    last_was_kitty: bool,
)
    requires
        plannable(*state, Some(*req)),
        last_was_kitty == (state.last_protocol matches Some(p) && is_kitty_spec(p)),
        steps_view(old(steps)@) == seq![StepModel::SetLastProtocol(None)],
    ensures
        steps_view(final(steps)@) == pet_image_plan_spec(*state, image_id, Some(*req)),
{
    let ghost s0 = steps_view(steps@);
    if last_was_kitty || is_kitty_protocol(req.protocol) {
        push_step(steps, PetImageStep::Write(kitty_delete_image(image_id)));
    }
    let ghost delete = if (state.last_protocol matches Some(p) && is_kitty_spec(p)) || is_kitty_spec(req.protocol) {
        seq![StepModel::Write(kitty_delete_bytes(image_id))]
    } else {
        Seq::empty()
    };
    assert(steps_view(steps@) =~= s0 + delete);
    push_step(steps, PetImageStep::SetLastProtocol(Some(req.protocol)));
    push_step(steps, PetImageStep::CheckPayload);
    push_step(steps, PetImageStep::Write(save_position()));
    let ghost s1 = steps_view(steps@);
    let current = match req.protocol {
        ImageProtocol::Sixel => Some(SixelClearArea::from_draw(req)),
        _ => None,
    };
    push_sixel_clears(steps, state.last_sixel_clear_area, current);
    let ghost s2 = steps_view(steps@);
    push_step(steps, PetImageStep::Write(move_to(req.x, req.y)));
    push_step(steps, PetImageStep::WritePayload);
    push_step(steps, PetImageStep::Write(restore_position()));
    push_step(steps, PetImageStep::Flush);
    assert(steps_view(steps@) =~= s2 + seq![
        StepModel::Write(move_to_bytes(req.x, req.y)),
        StepModel::WritePayload,
        StepModel::Write(restore_position_bytes()),
        StepModel::Flush,
    ]);
    assert(s1 =~= s0 + delete + seq![
        StepModel::SetLastProtocol(Some(req.protocol)),
        StepModel::CheckPayload,
        StepModel::Write(save_position_bytes()),
    ]);
}

/// Plans the steps of drawing a pet frame as image `image_id`, or of clearing it when there is
/// no request.
pub fn pet_image_plan(state: &PetImageRenderState, image_id: u32, request: &Option<AmbientPetDraw>) -> (r: Vec<
    PetImageStep,
>)
    requires
        plannable(*state, *request),
    ensures
        steps_view(r@) == pet_image_plan_spec(*state, image_id, *request),
{
    let mut steps: Vec<PetImageStep> = Vec::new();
    let last_was_kitty = match state.last_protocol {
        Some(p) => is_kitty_protocol(p),
        None => false,
    };
    assert(steps_view(steps@) =~= Seq::<StepModel>::empty());
    push_step(&mut steps, PetImageStep::SetLastProtocol(None));
    match request {
        None => push_clear_plan(&mut steps, state, image_id, last_was_kitty),
        Some(req) => push_draw_plan(&mut steps, state, image_id, req, last_was_kitty),
    }
    steps
}

/// The render state after the state changes among the first `k` steps.
pub open spec fn state_after(state: PetImageRenderState, steps: Seq<StepModel>, k: int) -> PetImageRenderState
    decreases k,
{
    if k <= 0 {
        state
    } else {
        let prev = state_after(state, steps, k - 1);
        match steps[k - 1] {
            StepModel::SetLastProtocol(p) => PetImageRenderState { last_protocol: p, ..prev },
            StepModel::SetSixelClearArea(a) => PetImageRenderState { last_sixel_clear_area: a, ..prev },
            _ => prev,
        }
    }
}

/// Whether step `k` is a terminal write.
pub open spec fn is_terminal_step(step: StepModel) -> bool {
    step is Write || step is WritePayload || step is Flush
}

/// The bytes a step hands to the terminal: a write's bytes, or the payload.
pub open spec fn step_bytes(step: StepModel, payload: Seq<u8>) -> Seq<u8> {
    match step {
        StepModel::Write(bytes) => bytes,
        StepModel::WritePayload => payload,
        _ => Seq::empty(),
    }
}

/// The bytes the first `k` steps hand to the terminal, in order.
pub open spec fn steps_bytes(steps: Seq<StepModel>, payload: Seq<u8>, k: int) -> Seq<u8>
    decreases k,
{
    if k <= 0 {
        Seq::empty()
    } else {
        steps_bytes(steps, payload, k - 1) + step_bytes(steps[k - 1], payload)
    }
}

/// The prepared payload's bytes; nothing when the payload is unprepared.
pub open spec fn payload_bytes(payload: Option<Seq<u8>>) -> Seq<u8> {
    match payload {
        Some(b) => b,
        None => Seq::empty(),
    }
}

/// The step calls the terminal: a write, a flush, or writing a prepared payload.
pub open spec fn calls_terminal(step: StepModel, payload: Option<Seq<u8>>) -> bool {
    step is Write || step is Flush || (step is WritePayload && payload is Some)
}

/// No step before step `k` calls the terminal.
pub open spec fn no_terminal_call_before(steps: Seq<StepModel>, payload: Option<Seq<u8>>, k: int) -> bool {
    forall|i: int| 0 <= i < k ==> !calls_terminal(#[trigger] steps[i], payload)
}

/// Every payload check before step `k` found the payload prepared.
pub open spec fn checks_passed_before(steps: Seq<StepModel>, payload: Option<Seq<u8>>, k: int) -> bool {
    forall|i: int| 0 <= i < k && #[trigger] steps[i] is CheckPayload ==> payload is Some
}

/// What holds after carrying out `steps` with the prepared payload (`None`: unprepared),
/// whatever the terminal answered.
///
/// - Success: every state change was made, and no payload check met an unprepared payload.
/// - A terminal error stops at a write or flush that failed, after every earlier payload check
///   passed, keeping the state changes before it.
/// - An asset error stops at the first payload check, for an unprepared payload, keeping the
///   state changes before it.
///
/// A terminal that never fails gives no terminal error; one that always fails gives no success
/// once a step calls it, and stops at the first such call. Where `modelled`, the terminal
/// received the bytes of the steps before the stop in order (on success, of every step), and a
/// failed write a leading part of its bytes.
pub open spec fn executed(
    state: PetImageRenderState,
    steps: Seq<StepModel>,
    payload: Option<Seq<u8>>,
    result: Result<(), PetImageRenderError>,
    final_state: PetImageRenderState,
    never_fails: bool,
    always_fails: bool,
    modelled: bool,
    written_before: Seq<u8>,
    written_after: Seq<u8>,
) -> bool {
    let pb = payload_bytes(payload);
    match result {
        Ok(()) => final_state == state_after(state, steps, steps.len() as int) && (modelled ==> written_after
            == written_before + steps_bytes(steps, pb, steps.len() as int)) && checks_passed_before(
            steps,
            payload,
            steps.len() as int,
        ) && (always_fails ==> no_terminal_call_before(steps, payload, steps.len() as int)),
        Err(PetImageRenderError::Terminal(_)) => !never_fails && exists|k: int, j: int|
            #![trigger steps[k], step_bytes(steps[k], pb).take(j)]
            0 <= k < steps.len() && is_terminal_step(steps[k]) && final_state == state_after(state, steps, k)
                && checks_passed_before(steps, payload, k) && (always_fails ==> no_terminal_call_before(steps, payload, k))
                && 0 <= j <= step_bytes(steps[k], pb).len() && (modelled ==> written_after == written_before
                + steps_bytes(steps, pb, k) + step_bytes(steps[k], pb).take(j)),
        Err(PetImageRenderError::Asset(_)) => payload is None && exists|k: int|
            0 <= k < steps.len() && #[trigger] steps[k] is CheckPayload && final_state == state_after(state, steps, k)
                && checks_passed_before(steps, payload, k) && (always_fails ==> no_terminal_call_before(steps, payload, k))
                && (modelled ==> written_after == written_before + steps_bytes(steps, pb, k)),
    }
}

/// The prepared payload as bytes.
pub open spec fn payload_view(payload: Result<Vec<u8>, anyhow::Error>) -> Option<Seq<u8>> {
    match payload {
        Ok(b) => Some(b@),
        Err(_) => None,
    }
}

/// Carries out planned steps on the terminal, stopping at the first failure.
pub fn execute_pet_image_steps<W: TerminalWriter>(
    writer: &mut W,
    state: &mut PetImageRenderState,
    steps: Vec<PetImageStep>,
    payload: Result<Vec<u8>, anyhow::Error>,
) -> (r: Result<(), PetImageRenderError>)
    ensures
        executed(
            *old(state),
            steps_view(steps@),
            payload_view(payload),
            r,
            *final(state),
            W::never_fails(),
            W::always_fails(),
            W::obeys_written_spec(),
            old(writer).written(),
            final(writer).written(),
        ),
{
    let ghost start = *state;
    let ghost sv = steps_view(steps@);
    let ghost pv = payload_view(payload);
    let ghost pb = payload_bytes(pv);
    let ghost w0 = writer.written();
    let ready = payload.is_ok();
    let n = steps.len();
    let mut k: usize = 0;
    while k < n
        invariant
            0 <= k <= n,
            n == steps@.len(),
            sv == steps_view(steps@),
            start == *old(state),
            *state == state_after(start, sv, k as int),
            ready == payload is Ok,
            pv == payload_view(payload),
            pb == payload_bytes(pv),
            w0 == old(writer).written(),
            W::obeys_written_spec() ==> writer.written() == w0 + steps_bytes(sv, pb, k as int),
            checks_passed_before(sv, pv, k as int),
            W::always_fails() ==> no_terminal_call_before(sv, pv, k as int),
        decreases n - k,
    {
        assert(sv[k as int] == steps@[k as int]@);
        let ghost before = writer.written();
        match &steps[k] {
            PetImageStep::Write(bytes) => {
                if let Err(err) = writer.write_all(bytes.as_slice()) {
                    proof {
                        assert(step_bytes(sv[k as int], pb) == bytes@);
                        assert(is_terminal_step(sv[k as int]));
                        if W::obeys_written_spec() {
                            let j = choose|j: int|
                                0 <= j <= bytes@.len() && writer.written() == before + bytes@.take(j);
                            assert(writer.written() == w0 + steps_bytes(sv, pb, k as int) + step_bytes(
                                sv[k as int],
                                pb,
                            ).take(j));
                        } else {
                            assert(step_bytes(sv[k as int], pb).take(0) =~= Seq::<u8>::empty());
                        }
                    }
                    return Err(PetImageRenderError::Terminal(err));
                }
                assert(step_bytes(sv[k as int], pb) == bytes@);
            },
            PetImageStep::CheckPayload => {
                if !ready {
                    let err = match payload {
                        Err(err) => err,
                        Ok(_) => {
                            return Ok(());
                        },
                    };
                    assert(sv[k as int] is CheckPayload);
                    return Err(PetImageRenderError::Asset(err));
                }
            },
            PetImageStep::WritePayload => {
                let written = match &payload {
                    Ok(bytes) => writer.write_all(bytes.as_slice()),
                    Err(_) => Ok(()),
                };
                assert(step_bytes(sv[k as int], pb) == pb);
                if let Err(err) = written {
                    proof {
                        assert(is_terminal_step(sv[k as int]));
                        if W::obeys_written_spec() {
                            let j = choose|j: int| 0 <= j <= pb.len() && writer.written() == before + pb.take(j);
                            assert(writer.written() == w0 + steps_bytes(sv, pb, k as int) + step_bytes(
                                sv[k as int],
                                pb,
                            ).take(j));
                        } else {
                            assert(step_bytes(sv[k as int], pb).take(0) =~= Seq::<u8>::empty());
                        }
                    }
                    return Err(PetImageRenderError::Terminal(err));
                }
                proof {
                    if !ready && W::obeys_written_spec() {
                        assert(pb =~= Seq::<u8>::empty());
                        assert(writer.written() =~= before + pb);
                    }
                }
            },
            PetImageStep::Flush => {
                if let Err(err) = writer.flush() {
                    proof {
                        assert(is_terminal_step(sv[k as int]));
                        assert(step_bytes(sv[k as int], pb).take(0) =~= Seq::<u8>::empty());
                        if W::obeys_written_spec() {
                            assert(writer.written() =~= w0 + steps_bytes(sv, pb, k as int) + step_bytes(
                                sv[k as int],
                                pb,
                            ).take(0));
                        }
                    }
                    return Err(PetImageRenderError::Terminal(err));
                }
            },
            PetImageStep::SetLastProtocol(p) => {
                state.last_protocol = *p;
            },
            PetImageStep::SetSixelClearArea(a) => {
                state.last_sixel_clear_area = *a;
            },
        }
        proof {
            if W::obeys_written_spec() {
                assert(writer.written() =~= w0 + steps_bytes(sv, pb, k + 1));
            }
        }
        k += 1;
    }
    Ok(())
}

/// Draws a pet frame as image `image_id`, or clears the previous one when there is no request.
/// `payload` is the frame prepared for the request's protocol.
pub fn render_pet_image<W: TerminalWriter>(
    writer: &mut W,
    state: &mut PetImageRenderState,
    image_id: u32,
    request: Option<AmbientPetDraw>,
    payload: Result<Vec<u8>, anyhow::Error>,
) -> (r: Result<(), PetImageRenderError>)
    requires
        plannable(*old(state), request),
    ensures
        executed(
            *old(state),
            pet_image_plan_spec(*old(state), image_id, request),
            payload_view(payload),
            r,
            *final(state),
            W::never_fails(),
            W::always_fails(),
            W::obeys_written_spec(),
            old(writer).written(),
            final(writer).written(),
        ),
{
    let steps = pet_image_plan(state, image_id, &request);
    execute_pet_image_steps(writer, state, steps, payload)
}

/// Kitty image id of the ambient pet.
pub const AMBIENT_PET_IMAGE_ID: u32 = 0xC0DE;

/// Kitty image id of the pet picker's preview.
pub const PET_PICKER_PREVIEW_IMAGE_ID: u32 = 0xC0DF;

/// Draws (or clears) the ambient pet.
pub fn render_ambient_pet_image<W: TerminalWriter>(
    writer: &mut W,
    state: &mut PetImageRenderState,
    request: Option<AmbientPetDraw>,
    payload: Result<Vec<u8>, anyhow::Error>,
) -> (r: Result<(), PetImageRenderError>)
    requires
        plannable(*old(state), request),
    ensures
        executed(
            *old(state),
            pet_image_plan_spec(*old(state), AMBIENT_PET_IMAGE_ID, request),
            payload_view(payload),
            r,
            *final(state),
            W::never_fails(),
            W::always_fails(),
            W::obeys_written_spec(),
            old(writer).written(),
            final(writer).written(),
        ),
{
    render_pet_image(writer, state, AMBIENT_PET_IMAGE_ID, request, payload)
}

/// Draws (or clears) the pet picker's preview.
pub fn render_pet_picker_preview_image<W: TerminalWriter>(
    writer: &mut W,
    state: &mut PetImageRenderState,
    request: Option<AmbientPetDraw>,
    payload: Result<Vec<u8>, anyhow::Error>,
) -> (r: Result<(), PetImageRenderError>)
    requires
        plannable(*old(state), request),
    ensures
        executed(
            *old(state),
            pet_image_plan_spec(*old(state), PET_PICKER_PREVIEW_IMAGE_ID, request),
            payload_view(payload),
            r,
            *final(state),
            W::never_fails(),
            W::always_fails(),
            W::obeys_written_spec(),
            old(writer).written(),
            final(writer).written(),
        ),
{
    render_pet_image(writer, state, PET_PICKER_PREVIEW_IMAGE_ID, request, payload)
}

/// The step moves the cursor.
pub open spec fn is_cursor_move(step: StepModel) -> bool {
    exists|x: u16, y: u16| step == StepModel::Write(#[trigger] move_to_bytes(x, y))
}

proof fn lemma_not_a_move(bytes: Seq<u8>)
    requires
        bytes.len() < 2 || bytes[0] != 0x1bu8 || bytes[1] != 0x5bu8,
    ensures
        !is_cursor_move(StepModel::Write(bytes)),
{
    if is_cursor_move(StepModel::Write(bytes)) {
        let (x, y) = choose|x: u16, y: u16| StepModel::Write(bytes) == StepModel::Write(#[trigger] move_to_bytes(x, y));
        assert(bytes == move_to_bytes(x, y));
        assert(move_to_bytes(x, y)[0] == 0x1bu8);
        assert(move_to_bytes(x, y)[1] == 0x5bu8);
    }
}

/// A pet frame's plan moves the cursor only after saving its position, and restores it just
/// before the final flush; a plan that only deletes a Kitty image never moves it.
pub proof fn law_cursor_moves_are_restored(state: PetImageRenderState, image_id: u32, request: Option<AmbientPetDraw>)
    ensures
        ({
            let p = pet_image_plan_spec(state, image_id, request);
            &&& p.len() >= 1
            &&& p.last() == StepModel::Flush
            &&& forall|k: int|
                0 <= k < p.len() && is_cursor_move(#[trigger] p[k]) ==> k < p.len() - 2 && p[p.len() - 2]
                    == StepModel::Write(restore_position_bytes()) && exists|i: int|
                    0 <= i < k && p[i] == StepModel::Write(save_position_bytes())
            &&& (request is None && state.last_sixel_clear_area is None) ==> forall|k: int|
                0 <= k < p.len() ==> !is_cursor_move(#[trigger] p[k])
        }),
{
    let p = pet_image_plan_spec(state, image_id, request);
    lemma_not_a_move(save_position_bytes());
    lemma_not_a_move(restore_position_bytes());
    lemma_not_a_move(kitty_delete_bytes(image_id));
    let save = StepModel::Write(save_position_bytes());
    let restore = StepModel::Write(restore_position_bytes());
    match request {
        None => {
            let delete = if state.last_protocol matches Some(pr) && is_kitty_spec(pr) {
                seq![StepModel::Write(kitty_delete_bytes(image_id))]
            } else {
                Seq::empty()
            };
            let head = seq![StepModel::SetLastProtocol(None)] + delete;
            assert forall|k: int| 0 <= k < head.len() implies !is_cursor_move(#[trigger] head[k]) by {
                if k >= 1 {
                    assert(head[k] == delete[k - 1]);
                }
            }
            match state.last_sixel_clear_area {
                Some(area) => {
                    let body = clear_area_steps(area);
                    let clear = seq![StepModel::SetSixelClearArea(None), save] + body + seq![restore];
                    assert(p == head + clear + seq![StepModel::Flush]);
                    let save_at: int = head.len() as int + 1;
                    assert(p[save_at] == save);
                    assert(p[p.len() - 2] == restore);
                    assert forall|k: int| 0 <= k < p.len() && is_cursor_move(#[trigger] p[k]) implies k < p.len() - 2
                        && p[p.len() - 2] == restore && exists|i: int| 0 <= i < k && p[i] == save by {
                        if k < head.len() {
                            assert(p[k] == head[k]);
                        } else if k <= save_at {
                            assert(!is_cursor_move(p[k]));
                        } else {
                            assert(k != p.len() - 2);
                            assert(k != p.len() - 1);
                            assert(0 <= save_at < k && p[save_at] == save);
                        }
                    }
                },
                None => {
                    assert(p == head + seq![StepModel::Flush]);
                    assert forall|k: int| 0 <= k < p.len() implies !is_cursor_move(#[trigger] p[k]) by {
                        if k < head.len() {
                            assert(p[k] == head[k]);
                        }
                    }
                },
            }
        },
        Some(req) => {
            let delete = if (state.last_protocol matches Some(pr) && is_kitty_spec(pr)) || is_kitty_spec(req.protocol) {
                seq![StepModel::Write(kitty_delete_bytes(image_id))]
            } else {
                Seq::empty()
            };
            let current = if req.protocol == ImageProtocol::Sixel {
                Some(clear_area_of(req))
            } else {
                None
            };
            let head = seq![StepModel::SetLastProtocol(None)] + delete + seq![
                StepModel::SetLastProtocol(Some(req.protocol)),
                StepModel::CheckPayload,
                save,
            ];
            let middle = sixel_clear_steps(state.last_sixel_clear_area, current);
            let tail = seq![
                StepModel::Write(move_to_bytes(req.x, req.y)),
                StepModel::WritePayload,
                restore,
                StepModel::Flush,
            ];
            assert(p == head + middle + tail);
            let save_at: int = head.len() - 1;
            assert(p[save_at] == save);
            assert(p[p.len() - 2] == restore);
            assert forall|k: int| 0 <= k < p.len() && is_cursor_move(#[trigger] p[k]) implies k < p.len() - 2
                && p[p.len() - 2] == restore && exists|i: int| 0 <= i < k && p[i] == save by {
                if k < head.len() {
                    assert(p[k] == head[k]);
                    if k >= 1 && k < 1 + delete.len() {
                        assert(head[k] == delete[k - 1]);
                    }
                    assert(!is_cursor_move(p[k]));
                } else {
                    assert(k != p.len() - 2);
                    assert(k != p.len() - 1);
                    assert(0 <= save_at < k && p[save_at] == save);
                }
            }
        },
    }
}

} // verus!
