//! The commands sent to a worker and the checks made on its replies.
use vstd::prelude::*;
use crate::frame::{append_bytes, decimal, first_space, lemma_first_space_unique, push_decimal, SPACE};

verus! {

/// Why a worker's reply was refused.
#[derive(Clone, Copy, Debug, PartialEq, Eq, Structural)]
pub enum ProtocolError {
    /// The reply's tag is not the one the last command calls for.
    WrongTag,
    /// A reply that must carry an argument came without one.
    MissingArgument,
    /// A scanline reply does not start with `RESULT 1 `.
    WrongResultHeader,
    /// A scanline reply does not carry exactly one row of pixels.
    WrongResultLength,
    /// A command was sent before the reply to the last one came, or a reply
    /// came when none was awaited.
    OutOfTurn,
}

/// A camera operation, named on the wire by a two-letter mnemonic.
#[derive(Clone, Copy, Debug, PartialEq, Eq, Structural)]
pub enum CameraMovement {
    TranslateForward,
    TranslateBackwards,
    TranslateRight,
    TranslateLeft,
    TranslateUp,
    TranslateDown,
    RollLeft,
    RollRight,
    PitchUp,
    PitchDown,
    YawLeft,
    YawRight,
    /// Switch between moving the scene and moving the camera.
    ModeSwitch,
}

impl CameraMovement {
    pub open spec fn spec_mnemonic(self) -> Seq<u8> {
        match self {
            CameraMovement::TranslateForward => seq!['t' as u8, 'F' as u8],
            CameraMovement::TranslateBackwards => seq!['t' as u8, 'B' as u8],
            CameraMovement::TranslateRight => seq!['t' as u8, 'R' as u8],
            CameraMovement::TranslateLeft => seq!['t' as u8, 'L' as u8],
            CameraMovement::TranslateUp => seq!['t' as u8, 'U' as u8],
            CameraMovement::TranslateDown => seq!['t' as u8, 'D' as u8],
            CameraMovement::RollLeft => seq!['r' as u8, 'L' as u8],
            CameraMovement::RollRight => seq!['r' as u8, 'R' as u8],
            CameraMovement::PitchUp => seq!['p' as u8, 'U' as u8],
            CameraMovement::PitchDown => seq!['p' as u8, 'D' as u8],
            CameraMovement::YawLeft => seq!['y' as u8, 'L' as u8],
            CameraMovement::YawRight => seq!['y' as u8, 'R' as u8],
            CameraMovement::ModeSwitch => seq!['s' as u8, 'M' as u8],
        }
    }

    /// The two letters that name this movement in a `CAM` command.
    pub fn mnemonic(&self) -> (r: Vec<u8>)
        ensures
            r@ == self.spec_mnemonic(),
    {
        match self {
            CameraMovement::TranslateForward => vec!['t' as u8, 'F' as u8],
            CameraMovement::TranslateBackwards => vec!['t' as u8, 'B' as u8],
            CameraMovement::TranslateRight => vec!['t' as u8, 'R' as u8],
            CameraMovement::TranslateLeft => vec!['t' as u8, 'L' as u8],
            CameraMovement::TranslateUp => vec!['t' as u8, 'U' as u8],
            CameraMovement::TranslateDown => vec!['t' as u8, 'D' as u8],
            CameraMovement::RollLeft => vec!['r' as u8, 'L' as u8],
            CameraMovement::RollRight => vec!['r' as u8, 'R' as u8],
            CameraMovement::PitchUp => vec!['p' as u8, 'U' as u8],
            CameraMovement::PitchDown => vec!['p' as u8, 'D' as u8],
            CameraMovement::YawLeft => vec!['y' as u8, 'L' as u8],
            CameraMovement::YawRight => vec!['y' as u8, 'R' as u8],
            CameraMovement::ModeSwitch => vec!['s' as u8, 'M' as u8],
        }
    }
}

} // verus!

verus! {

pub open spec fn word_info() -> Seq<u8> {
    seq!['I' as u8, 'N' as u8, 'F' as u8, 'O' as u8]
}

pub open spec fn word_setscene() -> Seq<u8> {
    seq!['S' as u8, 'E' as u8, 'T' as u8, 'S' as u8, 'C' as u8, 'E' as u8, 'N' as u8, 'E' as u8]
}

pub open spec fn word_calculate() -> Seq<u8> {
    seq!['C' as u8, 'A' as u8, 'L' as u8, 'C' as u8, 'U' as u8, 'L' as u8, 'A' as u8, 'T' as u8, 'E' as u8]
}

pub open spec fn word_cam() -> Seq<u8> {
    seq!['C' as u8, 'A' as u8, 'M' as u8]
}

pub open spec fn word_done() -> Seq<u8> {
    seq!['D' as u8, 'O' as u8, 'N' as u8, 'E' as u8]
}

pub open spec fn word_result() -> Seq<u8> {
    seq!['R' as u8, 'E' as u8, 'S' as u8, 'U' as u8, 'L' as u8, 'T' as u8]
}

pub open spec fn word_login() -> Seq<u8> {
    seq!['L' as u8, 'O' as u8, 'G' as u8, 'I' as u8, 'N' as u8]
}

/// The nine bytes that open every scanline reply: `RESULT 1 `.
pub open spec fn result_header() -> Seq<u8> {
    word_result() + seq![SPACE, '1' as u8, SPACE]
}

/// A command sent to a worker.
#[derive(Debug, PartialEq, Eq)]
pub enum Command {
    /// Announces the size of the frame.
    Info { width: usize, height: usize },
    /// Names the scene file, forwarded verbatim.
    SetScene { scene: Vec<u8> },
    /// Asks for the tile of `width` by `height` pixels at `(x, y)`.
    Calculate { x: usize, y: usize, width: usize, height: usize },
    /// Moves the camera.
    Cam { movement: CameraMovement },
}

impl Command {
    /// The payload that carries this command.
    pub open spec fn spec_payload(&self) -> Seq<u8> {
        match self {
            Command::Info { width, height } => word_info() + seq![SPACE] + decimal(*width as nat)
                + seq![SPACE] + decimal(*height as nat),
            Command::SetScene { scene } => word_setscene() + seq![SPACE] + scene@,
            Command::Calculate { x, y, width, height } => word_calculate() + seq![SPACE] + decimal(
                *x as nat,
            ) + seq![SPACE] + decimal(*y as nat) + seq![SPACE] + decimal(*width as nat) + seq![SPACE]
                + decimal(*height as nat),
            Command::Cam { movement } => word_cam() + seq![SPACE] + movement.spec_mnemonic(),
        }
    }

    /// The tag of the one reply this command calls for.
    pub open spec fn spec_reply_tag(&self) -> Seq<u8> {
        match self {
            Command::Info { .. } => word_info() + word_done(),
            Command::SetScene { .. } => word_setscene() + word_done(),
            Command::Calculate { .. } => word_result(),
            Command::Cam { .. } => word_cam() + word_done(),
        }
    }

    /// The payload that carries this command.
    pub fn payload(&self) -> (r: Vec<u8>)
        ensures
            r@ == self.spec_payload(),
    {
        match self {
            Command::Info { width, height } => {
                let mut out = info_word();
                out.push(SPACE);
                push_decimal(*width, &mut out);
                out.push(SPACE);
                push_decimal(*height, &mut out);
                out
            },
            Command::SetScene { scene } => {
                let mut out = setscene_word();
                out.push(SPACE);
                append_bytes(&mut out, scene.as_slice());
                out
            },
            Command::Calculate { x, y, width, height } => {
                let mut out = vec![
                    'C' as u8,
                    'A' as u8,
                    'L' as u8,
                    'C' as u8,
                    'U' as u8,
                    'L' as u8,
                    'A' as u8,
                    'T' as u8,
                    'E' as u8,
                ];
                out.push(SPACE);
                push_decimal(*x, &mut out);
                out.push(SPACE);
                push_decimal(*y, &mut out);
                out.push(SPACE);
                push_decimal(*width, &mut out);
                out.push(SPACE);
                push_decimal(*height, &mut out);
                out
            },
            Command::Cam { movement } => {
                let mut out = cam_word();
                out.push(SPACE);
                let m = movement.mnemonic();
                append_bytes(&mut out, m.as_slice());
                out
            },
        }
    }

    /// The tag of the one reply this command calls for.
    pub fn reply_tag(&self) -> (r: Vec<u8>)
        ensures
            r@ == self.spec_reply_tag(),
    {
        let mut out = match self {
            Command::Info { .. } => info_word(),
            Command::SetScene { .. } => setscene_word(),
            Command::Calculate { .. } => {
                return vec!['R' as u8, 'E' as u8, 'S' as u8, 'U' as u8, 'L' as u8, 'T' as u8];
            },
            Command::Cam { .. } => cam_word(),
        };
        out.push('D' as u8);
        out.push('O' as u8);
        out.push('N' as u8);
        out.push('E' as u8);
        out
    }
}

fn info_word() -> (r: Vec<u8>)
    ensures
        r@ == word_info(),
{
    vec!['I' as u8, 'N' as u8, 'F' as u8, 'O' as u8]
}

fn setscene_word() -> (r: Vec<u8>)
    ensures
        r@ == word_setscene(),
{
    vec!['S' as u8, 'E' as u8, 'T' as u8, 'S' as u8, 'C' as u8, 'E' as u8, 'N' as u8, 'E' as u8]
}

fn cam_word() -> (r: Vec<u8>)
    ensures
        r@ == word_cam(),
{
    vec!['C' as u8, 'A' as u8, 'M' as u8]
}

} // verus!

verus! {

/// The tag of a reply: its bytes up to the first space.
pub open spec fn tag_of(payload: Seq<u8>) -> Seq<u8> {
    payload.subrange(0, first_space(payload) as int)
}

/// The argument of a reply: its bytes after the first space, if it has one.
pub open spec fn argument_of(payload: Seq<u8>) -> Option<Seq<u8>> {
    let k = first_space(payload) as int;
    if k < payload.len() {
        Some(payload.subrange(k + 1, payload.len() as int))
    } else {
        None
    }
}

/// Checks that a reply carries `tag`, and hands back its argument.
pub fn expect_reply(payload: &[u8], tag: &[u8]) -> (r: Result<Option<Vec<u8>>, ProtocolError>)
    ensures
        match r {
            Ok(arg) => tag_of(payload@) == tag@ && match arg {
                Some(a) => argument_of(payload@) == Some(a@),
                None => argument_of(payload@) is None,
            },
            Err(e) => tag_of(payload@) != tag@ && e == ProtocolError::WrongTag,
        },
{
    let mut k: usize = 0;
    while k < payload.len() && payload[k] != SPACE
        invariant
            0 <= k <= payload@.len(),
            forall|j: int| 0 <= j < k ==> payload@[j] != SPACE,
        decreases payload@.len() - k,
    {
        k = k + 1;
    }
    proof {
        lemma_first_space_unique(payload@, k as int);
    }
    if k != tag.len() {
        return Err(ProtocolError::WrongTag);
    }
    let mut i: usize = 0;
    while i < k
        invariant
            k == tag@.len(),
            k <= payload@.len(),
            first_space(payload@) == k,
            0 <= i <= k,
            forall|j: int| 0 <= j < i ==> payload@[j] == tag@[j],
        decreases k - i,
    {
        if payload[i] != tag[i] {
            assert(tag_of(payload@)[i as int] != tag@[i as int]);
            return Err(ProtocolError::WrongTag);
        }
        i = i + 1;
    }
    assert(tag_of(payload@) == tag@);
    if k == payload.len() {
        Ok(None)
    } else {
        let arg = vstd::slice::slice_to_vec(vstd::slice::slice_subrange(payload, k + 1, payload.len()));
        Ok(Some(arg))
    }
}

/// Reads the display name out of a worker's first message, `LOGIN <name>`.
pub fn login_name(payload: &[u8]) -> (r: Result<Vec<u8>, ProtocolError>)
    ensures
        match r {
            Ok(name) => tag_of(payload@) == word_login() && argument_of(payload@) == Some(name@),
            Err(ProtocolError::WrongTag) => tag_of(payload@) != word_login(),
            Err(ProtocolError::MissingArgument) => tag_of(payload@) == word_login() && argument_of(
                payload@,
            ) is None,
            Err(_) => false,
        },
{
    let tag = vec!['L' as u8, 'O' as u8, 'G' as u8, 'I' as u8, 'N' as u8];
    match expect_reply(payload, tag.as_slice()) {
        Ok(Some(name)) => Ok(name),
        Ok(None) => Err(ProtocolError::MissingArgument),
        Err(e) => Err(e),
    }
}

/// `payload` is a scanline reply for a row `width` pixels wide.
pub open spec fn is_result_line(payload: Seq<u8>, width: int) -> bool {
    &&& payload.len() == result_header().len() + width * 3
    &&& payload.subrange(0, result_header().len() as int) == result_header()
}

/// `buf` with the `width * 3` bytes of row `row` replaced by `pixels`.
pub open spec fn with_row(buf: Seq<u8>, width: int, row: int, pixels: Seq<u8>) -> Seq<u8> {
    buf.subrange(0, row * width * 3) + pixels + buf.subrange((row + 1) * width * 3, buf.len() as int)
}

/// The pixels a scanline reply carries: what follows its header.
pub open spec fn result_pixels(payload: Seq<u8>) -> Seq<u8> {
    payload.subrange(result_header().len() as int, payload.len() as int)
}

/// Checks a scanline reply for a row `width` pixels wide and copies its pixels
/// into row `row` of `dst`.
pub fn store_result(payload: &[u8], width: usize, dst: &mut [u8], row: usize) -> (r: Result<
    (),
    ProtocolError,
>)
    requires
        (row + 1) * width * 3 <= old(dst)@.len(),
    ensures
        r is Ok <==> is_result_line(payload@, width as int),
        r is Ok ==> payload@.len() == 9 + width * 3,
        r is Ok ==> final(dst)@ == with_row(old(dst)@, width as int, row as int, result_pixels(payload@)),
        r is Err ==> final(dst)@ == old(dst)@,
        r is Err ==> r == Err::<(), ProtocolError>(ProtocolError::WrongResultHeader) || r == Err::<
            (),
            ProtocolError,
        >(ProtocolError::WrongResultLength),
        r == Err::<(), ProtocolError>(ProtocolError::WrongResultHeader) <==> (payload@.len() < 9
            || payload@.subrange(0, 9) != result_header()),
{
    let header = vec!['R' as u8, 'E' as u8, 'S' as u8, 'U' as u8, 'L' as u8, 'T' as u8, SPACE, '1' as u8, SPACE];
    if payload.len() < 9 {
        return Err(ProtocolError::WrongResultHeader);
    }
    let mut i: usize = 0;
    while i < 9
        invariant
            header@ == result_header(),
            payload@.len() >= 9,
            0 <= i <= 9,
            forall|j: int| 0 <= j < i ==> payload@[j] == header@[j],
        decreases 9 - i,
    {
        if payload[i] != header[i] {
            assert(payload@.subrange(0, 9)[i as int] != result_header()[i as int]);
            return Err(ProtocolError::WrongResultHeader);
        }
        i = i + 1;
    }
    assert(payload@.subrange(0, 9) == result_header());
    let n = dst.len();
    let p_len = payload.len();
    proof {
        assert(width * 3 <= (row + 1) * width * 3 && row * (width * 3) + width * 3 == (row + 1)
            * width * 3 && row * (width * 3) == row * width * 3) by (nonlinear_arith)
            requires
                row >= 0,
                width >= 0,
        ;
    }
    let line = width * 3;
    if p_len - 9 != line {
        return Err(ProtocolError::WrongResultLength);
    }
    let offset = row * line;
    let mut j: usize = 0;
    while j < line
        invariant
            payload@.len() == 9 + line,
            p_len == payload@.len(),
            n == old(dst)@.len(),
            offset + line <= old(dst)@.len(),
            dst@.len() == old(dst)@.len(),
            0 <= j <= line,
            forall|t: int|
                0 <= t < dst@.len() && !(offset <= t < offset + j) ==> dst@[t] == old(dst)@[t],
            forall|t: int| offset <= t < offset + j ==> dst@[t] == payload@[t - offset + 9],
        decreases line - j,
    {
        dst[offset + j] = payload[9 + j];
        j = j + 1;
    }
    assert(dst@ == with_row(old(dst)@, width as int, row as int, result_pixels(payload@)));
    Ok(())
}

} // verus!
