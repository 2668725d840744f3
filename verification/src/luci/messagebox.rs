//! The `MessageBox` command catalog and the READ/WRITE `MessageType`.
//!
//! Only the ids the app references are named. [`MessageBox::try_from`] decodes
//! an incoming command id, so an unrecognised push is reported (as the raw
//! number) rather than silently mis-parsed.

use vstd::prelude::*;

verus! {

/// READ vs WRITE — byte 2 of the frame header.
#[derive(Debug, Clone, Copy, PartialEq, Eq, Structural)]
pub enum MessageType {
    Read,
    Write,
}

impl MessageType {
    pub open spec fn spec_id(self) -> u8 {
        match self {
            MessageType::Read => 1,
            MessageType::Write => 2,
        }
    }

    /// The wire value of byte 2.
    pub fn id(self) -> (r: u8)
        ensures
            r == self.spec_id(),
    {
        match self {
            MessageType::Read => 1,
            MessageType::Write => 2,
        }
    }
}

/// A Luci command id.
#[derive(Debug, Clone, Copy, PartialEq, Eq, Hash, Structural)]
pub enum MessageBox {
    /// Subscribe to async state pushes (send WRITE on connect).
    RegAsyncEvents,
    DregAsyncEvents,
    FwVersion,
    PlayBackSource,
    DevDetachmentStatus,
    DevAttachmentStatus,
    Playcntrl,
    Playjson,
    TrackInfo,
    /// Play position, pushed in ms.
    GetPlayDuration,
    CurrSource,
    PlayState,
    MuteUnmute,
    Volume,
    DevName,
    DevMacId,
    DevInfo,
    MraTrigger,
    StandAloneMode,
    OohSlave,
    /// QueryMRA — pushed, not a plain read.
    DeviceState,
    SetZoneId,
    DdmsSsid,
    SpeakerType,
    SetupStereoPair,
    ClientsInMra,
    MasterToSlave,
    SlaveToMaster,
    RssiIndicator,
    Region,
    EnableShareMode,
    SlaveInfo,
    ZoneVolume,
    ClientZoneVolume,
}

impl MessageBox {
    /// The wire command id of each command.
    pub open spec fn spec_id(self) -> u16 {
        match self {
            MessageBox::RegAsyncEvents => 3,
            MessageBox::DregAsyncEvents => 4,
            MessageBox::FwVersion => 5,
            MessageBox::PlayBackSource => 10,
            MessageBox::DevDetachmentStatus => 36,
            MessageBox::DevAttachmentStatus => 38,
            MessageBox::Playcntrl => 40,
            MessageBox::Playjson => 42,
            MessageBox::TrackInfo => 44,
            MessageBox::GetPlayDuration => 49,
            MessageBox::CurrSource => 50,
            MessageBox::PlayState => 51,
            MessageBox::MuteUnmute => 63,
            MessageBox::Volume => 64,
            MessageBox::DevName => 90,
            MessageBox::DevMacId => 91,
            MessageBox::DevInfo => 92,
            MessageBox::MraTrigger => 100,
            MessageBox::StandAloneMode => 101,
            MessageBox::OohSlave => 102,
            MessageBox::DeviceState => 103,
            MessageBox::SetZoneId => 104,
            MessageBox::DdmsSsid => 105,
            MessageBox::SpeakerType => 106,
            MessageBox::SetupStereoPair => 108,
            MessageBox::ClientsInMra => 110,
            MessageBox::MasterToSlave => 117,
            MessageBox::SlaveToMaster => 118,
            MessageBox::RssiIndicator => 151,
            MessageBox::Region => 206,
            MessageBox::EnableShareMode => 214,
            MessageBox::SlaveInfo => 216,
            MessageBox::ZoneVolume => 219,
            MessageBox::ClientZoneVolume => 220,
        }
    }

    /// The command named by a wire id, if any.
    pub open spec fn spec_from_id(value: u16) -> Option<MessageBox> {
        if value == 3 {
            Some(MessageBox::RegAsyncEvents)
        } else if value == 4 {
            Some(MessageBox::DregAsyncEvents)
        } else if value == 5 {
            Some(MessageBox::FwVersion)
        } else if value == 10 {
            Some(MessageBox::PlayBackSource)
        } else if value == 36 {
            Some(MessageBox::DevDetachmentStatus)
        } else if value == 38 {
            Some(MessageBox::DevAttachmentStatus)
        } else if value == 40 {
            Some(MessageBox::Playcntrl)
        } else if value == 42 {
            Some(MessageBox::Playjson)
        } else if value == 44 {
            Some(MessageBox::TrackInfo)
        } else if value == 49 {
            Some(MessageBox::GetPlayDuration)
        } else if value == 50 {
            Some(MessageBox::CurrSource)
        } else if value == 51 {
            Some(MessageBox::PlayState)
        } else if value == 63 {
            Some(MessageBox::MuteUnmute)
        } else if value == 64 {
            Some(MessageBox::Volume)
        } else if value == 90 {
            Some(MessageBox::DevName)
        } else if value == 91 {
            Some(MessageBox::DevMacId)
        } else if value == 92 {
            Some(MessageBox::DevInfo)
        } else if value == 100 {
            Some(MessageBox::MraTrigger)
        } else if value == 101 {
            Some(MessageBox::StandAloneMode)
        } else if value == 102 {
            Some(MessageBox::OohSlave)
        } else if value == 103 {
            Some(MessageBox::DeviceState)
        } else if value == 104 {
            Some(MessageBox::SetZoneId)
        } else if value == 105 {
            Some(MessageBox::DdmsSsid)
        } else if value == 106 {
            Some(MessageBox::SpeakerType)
        } else if value == 108 {
            Some(MessageBox::SetupStereoPair)
        } else if value == 110 {
            Some(MessageBox::ClientsInMra)
        } else if value == 117 {
            Some(MessageBox::MasterToSlave)
        } else if value == 118 {
            Some(MessageBox::SlaveToMaster)
        } else if value == 151 {
            Some(MessageBox::RssiIndicator)
        } else if value == 206 {
            Some(MessageBox::Region)
        } else if value == 214 {
            Some(MessageBox::EnableShareMode)
        } else if value == 216 {
            Some(MessageBox::SlaveInfo)
        } else if value == 219 {
            Some(MessageBox::ZoneVolume)
        } else if value == 220 {
            Some(MessageBox::ClientZoneVolume)
        } else {
            None
        }
    }

    /// The wire command id.
    pub fn id(self) -> (r: u16)
        ensures
            r == self.spec_id(),
    {
        match self {
            MessageBox::RegAsyncEvents => 3,
            MessageBox::DregAsyncEvents => 4,
            MessageBox::FwVersion => 5,
            MessageBox::PlayBackSource => 10,
            MessageBox::DevDetachmentStatus => 36,
            MessageBox::DevAttachmentStatus => 38,
            MessageBox::Playcntrl => 40,
            MessageBox::Playjson => 42,
            MessageBox::TrackInfo => 44,
            MessageBox::GetPlayDuration => 49,
            MessageBox::CurrSource => 50,
            MessageBox::PlayState => 51,
            MessageBox::MuteUnmute => 63,
            MessageBox::Volume => 64,
            MessageBox::DevName => 90,
            MessageBox::DevMacId => 91,
            MessageBox::DevInfo => 92,
            MessageBox::MraTrigger => 100,
            MessageBox::StandAloneMode => 101,
            MessageBox::OohSlave => 102,
            MessageBox::DeviceState => 103,
            MessageBox::SetZoneId => 104,
            MessageBox::DdmsSsid => 105,
            MessageBox::SpeakerType => 106,
            MessageBox::SetupStereoPair => 108,
            MessageBox::ClientsInMra => 110,
            MessageBox::MasterToSlave => 117,
            MessageBox::SlaveToMaster => 118,
            MessageBox::RssiIndicator => 151,
            MessageBox::Region => 206,
            MessageBox::EnableShareMode => 214,
            MessageBox::SlaveInfo => 216,
            MessageBox::ZoneVolume => 219,
            MessageBox::ClientZoneVolume => 220,
        }
    }

    /// Decode an incoming command id; an unrecognised id comes back as the
    /// error, so the caller can log it.
    pub fn try_from(value: u16) -> (r: Result<MessageBox, u16>)
        ensures
            match MessageBox::spec_from_id(value) {
                Some(m) => r == Ok::<MessageBox, u16>(m),
                None => r == Err::<MessageBox, u16>(value),
            },
    {
        match value {
            3 => Ok(MessageBox::RegAsyncEvents),
            4 => Ok(MessageBox::DregAsyncEvents),
            5 => Ok(MessageBox::FwVersion),
            10 => Ok(MessageBox::PlayBackSource),
            36 => Ok(MessageBox::DevDetachmentStatus),
            38 => Ok(MessageBox::DevAttachmentStatus),
            40 => Ok(MessageBox::Playcntrl),
            42 => Ok(MessageBox::Playjson),
            44 => Ok(MessageBox::TrackInfo),
            49 => Ok(MessageBox::GetPlayDuration),
            50 => Ok(MessageBox::CurrSource),
            51 => Ok(MessageBox::PlayState),
            63 => Ok(MessageBox::MuteUnmute),
            64 => Ok(MessageBox::Volume),
            90 => Ok(MessageBox::DevName),
            91 => Ok(MessageBox::DevMacId),
            92 => Ok(MessageBox::DevInfo),
            100 => Ok(MessageBox::MraTrigger),
            101 => Ok(MessageBox::StandAloneMode),
            102 => Ok(MessageBox::OohSlave),
            103 => Ok(MessageBox::DeviceState),
            104 => Ok(MessageBox::SetZoneId),
            105 => Ok(MessageBox::DdmsSsid),
            106 => Ok(MessageBox::SpeakerType),
            108 => Ok(MessageBox::SetupStereoPair),
            110 => Ok(MessageBox::ClientsInMra),
            117 => Ok(MessageBox::MasterToSlave),
            118 => Ok(MessageBox::SlaveToMaster),
            151 => Ok(MessageBox::RssiIndicator),
            206 => Ok(MessageBox::Region),
            214 => Ok(MessageBox::EnableShareMode),
            216 => Ok(MessageBox::SlaveInfo),
            219 => Ok(MessageBox::ZoneVolume),
            220 => Ok(MessageBox::ClientZoneVolume),
            other => Err(other),
        }
    }
}

/// Every command's wire id decodes back to that command, so no two commands
/// share an id.
pub proof fn law_id_round_trip(mb: MessageBox)
    ensures
        MessageBox::spec_from_id(mb.spec_id()) == Some(mb),
{
}

/// Ids that name a command are exactly the ids of the catalog.
pub proof fn law_from_id_is_inverse(value: u16)
    ensures
        MessageBox::spec_from_id(value) matches Some(m) ==> m.spec_id() == value,
{
}

} // verus!
