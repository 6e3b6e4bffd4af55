use vstd::prelude::*;

verus! {

/// State reported by a mitch device, decoded from one status byte.
#[derive(Clone, Copy, Debug, PartialEq, Eq, Structural, PartialOrd, Ord, Hash)]
pub enum MitchState {
    SysStartup,
    SysIdle,
    SysStandby,
    SysLog,
    SysReadout,
    SysTx,
    SysError,
    BootStartup,
    BootIdle,
    BootDownload,
}

/// The byte that encodes each device state on the wire.
pub open spec fn state_code(s: MitchState) -> u8 {
    match s {
        MitchState::SysStartup => 0x01,
        MitchState::SysIdle => 0x02,
        MitchState::SysStandby => 0x03,
        MitchState::SysLog => 0x04,
        MitchState::SysReadout => 0x05,
        MitchState::SysTx => 0xF8,
        MitchState::SysError => 0xFF,
        MitchState::BootStartup => 0xF0,
        MitchState::BootIdle => 0xF1,
        MitchState::BootDownload => 0xF2,
    }
}

/// Whether a byte encodes some device state.
pub open spec fn is_state_code(b: u8) -> bool {
    exists|s: MitchState| state_code(s) == b
}

impl MitchState {
    /// The wire byte of this state.
    pub fn code(&self) -> (r: u8)
        ensures
            r == state_code(*self),
    {
        match self {
            MitchState::SysStartup => 0x01,
            MitchState::SysIdle => 0x02,
            MitchState::SysStandby => 0x03,
            MitchState::SysLog => 0x04,
            MitchState::SysReadout => 0x05,
            MitchState::SysTx => 0xF8,
            MitchState::SysError => 0xFF,
            MitchState::BootStartup => 0xF0,
            MitchState::BootIdle => 0xF1,
            MitchState::BootDownload => 0xF2,
        }
    }

    /// Decodes a status byte; every byte outside the table is "Unknown state".
    pub fn try_from(value: u8) -> (r: Result<MitchState, &'static str>)
        ensures
            match r {
                Ok(s) => state_code(s) == value,
                Err(e) => !is_state_code(value) && e@ == "Unknown state"@,
            },
            is_state_code(value) <==> r is Ok,
    {
        let r = match value {
            0x01 => Ok(MitchState::SysStartup),
            0x02 => Ok(MitchState::SysIdle),
            0x03 => Ok(MitchState::SysStandby),
            0x04 => Ok(MitchState::SysLog),
            0x05 => Ok(MitchState::SysReadout),
            0xF8 => Ok(MitchState::SysTx),
            0xFF => Ok(MitchState::SysError),
            0xF0 => Ok(MitchState::BootStartup),
            0xF1 => Ok(MitchState::BootIdle),
            0xF2 => Ok(MitchState::BootDownload),
            _ => Err("Unknown state"),
        };
        proof {
            reveal_strlit("Unknown state");
            if r is Ok {
                assert(state_code(r->Ok_0) == value);
            }
        }
        r
    }
}

/// A device command of the mitch opcode table.
#[derive(Clone, Copy, Debug, PartialEq, Eq, Structural)]
pub enum Commands {
    GetState,
    GetPower,
    StartAccelerometryStream,
    StartPressureStream,
    StopStream,
}

/// The exact bytes written to the command characteristic for each command.
pub open spec fn opcode_bytes(c: Commands) -> Seq<u8> {
    match c {
        Commands::GetState => seq![0x82u8, 0x00u8],
        Commands::GetPower => seq![0x57u8, 0x00u8],
        Commands::StartAccelerometryStream => seq![0x02u8, 0x03u8, 0xF8u8, 0x04u8, 0x04u8],
        Commands::StartPressureStream => seq![0x02u8, 0x03u8, 0xF8u8, 0x01u8, 0x04u8],
        Commands::StopStream => seq![0x02u8, 0x01u8, 0x02u8],
    }
}

impl Commands {
    /// The opcode bytes of this command.
    pub fn opcode(&self) -> (r: Vec<u8>)
        ensures
            r@ == opcode_bytes(*self),
    {
        let r = match self {
            Commands::GetState => vec![0x82u8, 0x00u8],
            Commands::GetPower => vec![0x57u8, 0x00u8],
            Commands::StartAccelerometryStream => vec![0x02u8, 0x03u8, 0xF8u8, 0x04u8, 0x04u8],
            Commands::StartPressureStream => vec![0x02u8, 0x03u8, 0xF8u8, 0x01u8, 0x04u8],
            Commands::StopStream => vec![0x02u8, 0x01u8, 0x02u8],
        };
        assert(r@ =~= opcode_bytes(*self));
        r
    }
}

} // verus!
