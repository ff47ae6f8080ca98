//! Decoding: from a 16-bit instruction word to a tagged instruction value.
//! Every instruction sees the same decoded fields: `x` and `y` name
//! registers, `kk` is the low-byte immediate, `nnn` the low 12-bit address,
//! and `n` the low nibble.

use vstd::prelude::*;

verus! {

/// One decoded instruction. `Unknown` stands for every word outside the
/// instruction set; executing it is a reported no-op.
#[derive(Clone, Copy, PartialEq, Eq, Structural, Debug)]
pub enum Instr {
    ClearScreen,
    Return,
    Jump { nnn: u16 },
    Call { nnn: u16 },
    SkipEqByte { x: u8, kk: u8 },
    SkipNeByte { x: u8, kk: u8 },
    SkipEqReg { x: u8, y: u8 },
    SetByte { x: u8, kk: u8 },
    AddByte { x: u8, kk: u8 },
    CopyReg { x: u8, y: u8 },
    OrReg { x: u8, y: u8 },
    AndReg { x: u8, y: u8 },
    XorReg { x: u8, y: u8 },
    AddReg { x: u8, y: u8 },
    SubReg { x: u8, y: u8 },
    ShiftRight { x: u8 },
    SubFrom { x: u8, y: u8 },
    ShiftLeft { x: u8 },
    SkipNeReg { x: u8, y: u8 },
    SetIndex { nnn: u16 },
    JumpPlusV0 { nnn: u16 },
    Random { x: u8, kk: u8 },
    Draw { x: u8, y: u8, n: u8 },
    SkipIfKey { x: u8 },
    SkipIfNotKey { x: u8 },
    GetDelay { x: u8 },
    WaitForKey { x: u8 },
    SetDelay { x: u8 },
    SetSound { x: u8 },
    AddIndex { x: u8 },
    FontChar { x: u8 },
    StoreBcd { x: u8 },
    RegDump { x: u8 },
    RegLoad { x: u8 },
    Unknown,
}

/// Register fields decode to 4-bit values and addresses to 12-bit values.
pub open spec fn instr_wf(i: Instr) -> bool {
    match i {
        Instr::ClearScreen => true,
        Instr::Return => true,
        Instr::Jump { nnn } => nnn <= 0xFFF,
        Instr::Call { nnn } => nnn <= 0xFFF,
        Instr::SkipEqByte { x, kk } => x < 16,
        Instr::SkipNeByte { x, kk } => x < 16,
        Instr::SkipEqReg { x, y } => x < 16 && y < 16,
        Instr::SetByte { x, kk } => x < 16,
        Instr::AddByte { x, kk } => x < 16,
        Instr::CopyReg { x, y } => x < 16 && y < 16,
        Instr::OrReg { x, y } => x < 16 && y < 16,
        Instr::AndReg { x, y } => x < 16 && y < 16,
        Instr::XorReg { x, y } => x < 16 && y < 16,
        Instr::AddReg { x, y } => x < 16 && y < 16,
        Instr::SubReg { x, y } => x < 16 && y < 16,
        Instr::ShiftRight { x } => x < 16,
        Instr::SubFrom { x, y } => x < 16 && y < 16,
        Instr::ShiftLeft { x } => x < 16,
        Instr::SkipNeReg { x, y } => x < 16 && y < 16,
        Instr::SetIndex { nnn } => nnn <= 0xFFF,
        Instr::JumpPlusV0 { nnn } => nnn <= 0xFFF,
        Instr::Random { x, kk } => x < 16,
        Instr::Draw { x, y, n } => x < 16 && y < 16 && n < 16,
        Instr::SkipIfKey { x } => x < 16,
        Instr::SkipIfNotKey { x } => x < 16,
        Instr::GetDelay { x } => x < 16,
        Instr::WaitForKey { x } => x < 16,
        Instr::SetDelay { x } => x < 16,
        Instr::SetSound { x } => x < 16,
        Instr::AddIndex { x } => x < 16,
        Instr::FontChar { x } => x < 16,
        Instr::StoreBcd { x } => x < 16,
        Instr::RegDump { x } => x < 16,
        Instr::RegLoad { x } => x < 16,
        Instr::Unknown => true,
    }
}

/// What a 16-bit word decodes to. The primary dispatch is on the top
/// nibble; classes 0x0, 0x8, 0xE and 0xF dispatch again on a low nibble or
/// the low byte.
pub open spec fn spec_decode(w: u16) -> Instr {
    let x = ((w >> 8u16) & 0xF) as u8;
    let y = ((w >> 4u16) & 0xF) as u8;
    let kk = (w & 0xFF) as u8;
    let nnn = w & 0xFFF;
    let n = (w & 0xF) as u8;
    let class = w & 0xF000;
    if w == 0x00E0 {
        Instr::ClearScreen
    } else if w == 0x00EE {
        Instr::Return
    } else if class == 0x1000 {
        Instr::Jump { nnn }
    } else if class == 0x2000 {
        Instr::Call { nnn }
    } else if class == 0x3000 {
        Instr::SkipEqByte { x, kk }
    } else if class == 0x4000 {
        Instr::SkipNeByte { x, kk }
    } else if class == 0x5000 {
        Instr::SkipEqReg { x, y }
    } else if class == 0x6000 {
        Instr::SetByte { x, kk }
    } else if class == 0x7000 {
        Instr::AddByte { x, kk }
    } else if class == 0x8000 {
        if n == 0x0 {
            Instr::CopyReg { x, y }
        } else if n == 0x1 {
            Instr::OrReg { x, y }
        } else if n == 0x2 {
            Instr::AndReg { x, y }
        } else if n == 0x3 {
            Instr::XorReg { x, y }
        } else if n == 0x4 {
            Instr::AddReg { x, y }
        } else if n == 0x5 {
            Instr::SubReg { x, y }
        } else if n == 0x6 {
            Instr::ShiftRight { x }
        } else if n == 0x7 {
            Instr::SubFrom { x, y }
        } else if n == 0xE {
            Instr::ShiftLeft { x }
        } else {
            Instr::Unknown
        }
    } else if class == 0x9000 {
        Instr::SkipNeReg { x, y }
    } else if class == 0xA000 {
        Instr::SetIndex { nnn }
    } else if class == 0xB000 {
        Instr::JumpPlusV0 { nnn }
    } else if class == 0xC000 {
        Instr::Random { x, kk }
    } else if class == 0xD000 {
        Instr::Draw { x, y, n }
    } else if class == 0xE000 {
        if kk == 0x9E {
            Instr::SkipIfKey { x }
        } else if kk == 0xA1 {
            Instr::SkipIfNotKey { x }
        } else {
            Instr::Unknown
        }
    } else if class == 0xF000 {
        if kk == 0x07 {
            Instr::GetDelay { x }
        } else if kk == 0x0A {
            Instr::WaitForKey { x }
        } else if kk == 0x15 {
            Instr::SetDelay { x }
        } else if kk == 0x18 {
            Instr::SetSound { x }
        } else if kk == 0x1E {
            Instr::AddIndex { x }
        } else if kk == 0x29 {
            Instr::FontChar { x }
        } else if kk == 0x33 {
            Instr::StoreBcd { x }
        } else if kk == 0x55 {
            Instr::RegDump { x }
        } else if kk == 0x65 {
            Instr::RegLoad { x }
        } else {
            Instr::Unknown
        }
    } else {
        Instr::Unknown
    }
}

/// Decoding yields well-formed fields for every word.
pub proof fn lemma_decode_wf(w: u16)
    ensures
        instr_wf(spec_decode(w)),
{
    assert(((w >> 8u16) & 0xF) < 16) by (bit_vector);
    assert(((w >> 4u16) & 0xF) < 16) by (bit_vector);
    assert((w & 0xFFF) <= 0xFFF) by (bit_vector);
    assert((w & 0xF) < 16) by (bit_vector);
}

/// Decode one instruction word.
pub fn decode(w: u16) -> (i: Instr)
    ensures
        i == spec_decode(w),
        instr_wf(i),
{
    proof {
        lemma_decode_wf(w);
    }
    let x = ((w >> 8u16) & 0xF) as u8;
    let y = ((w >> 4u16) & 0xF) as u8;
    let kk = (w & 0xFF) as u8;
    let nnn = w & 0xFFF;
    let n = (w & 0xF) as u8;
    let class = w & 0xF000;
    if w == 0x00E0 {
        Instr::ClearScreen
    } else if w == 0x00EE {
        Instr::Return
    } else if class == 0x1000 {
        Instr::Jump { nnn }
    } else if class == 0x2000 {
        Instr::Call { nnn }
    } else if class == 0x3000 {
        Instr::SkipEqByte { x, kk }
    } else if class == 0x4000 {
        Instr::SkipNeByte { x, kk }
    } else if class == 0x5000 {
        Instr::SkipEqReg { x, y }
    } else if class == 0x6000 {
        Instr::SetByte { x, kk }
    } else if class == 0x7000 {
        Instr::AddByte { x, kk }
    } else if class == 0x8000 {
        if n == 0x0 {
            Instr::CopyReg { x, y }
        } else if n == 0x1 {
            Instr::OrReg { x, y }
        } else if n == 0x2 {
            Instr::AndReg { x, y }
        } else if n == 0x3 {
            Instr::XorReg { x, y }
        } else if n == 0x4 {
            Instr::AddReg { x, y }
        } else if n == 0x5 {
            Instr::SubReg { x, y }
        } else if n == 0x6 {
            Instr::ShiftRight { x }
        } else if n == 0x7 {
            Instr::SubFrom { x, y }
        } else if n == 0xE {
            Instr::ShiftLeft { x }
        } else {
            Instr::Unknown
        }
    } else if class == 0x9000 {
        Instr::SkipNeReg { x, y }
    } else if class == 0xA000 {
        Instr::SetIndex { nnn }
    } else if class == 0xB000 {
        Instr::JumpPlusV0 { nnn }
    } else if class == 0xC000 {
        Instr::Random { x, kk }
    } else if class == 0xD000 {
        Instr::Draw { x, y, n }
    } else if class == 0xE000 {
        if kk == 0x9E {
            Instr::SkipIfKey { x }
        } else if kk == 0xA1 {
            Instr::SkipIfNotKey { x }
        } else {
            Instr::Unknown
        }
    } else if class == 0xF000 {
        if kk == 0x07 {
            Instr::GetDelay { x }
        } else if kk == 0x0A {
            Instr::WaitForKey { x }
        } else if kk == 0x15 {
            Instr::SetDelay { x }
        } else if kk == 0x18 {
            Instr::SetSound { x }
        } else if kk == 0x1E {
            Instr::AddIndex { x }
        } else if kk == 0x29 {
            Instr::FontChar { x }
        } else if kk == 0x33 {
            Instr::StoreBcd { x }
        } else if kk == 0x55 {
            Instr::RegDump { x }
        } else if kk == 0x65 {
            Instr::RegLoad { x }
        } else {
            Instr::Unknown
        }
    } else {
        Instr::Unknown
    }
}

} // verus!
