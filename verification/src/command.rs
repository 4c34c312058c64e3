//! The typed commands of the protocol: request encoders and reply decoders.
//!
//! Field order on the wire is load-bearing; it matches the sound server's
//! published layout for the baseline protocol version.

use vstd::prelude::*;

use crate::error::{Error, ErrorKind};
use crate::tag_struct::{
    option_string_view, ChannelMap, ChannelVolume, Pop, Put, SampleSpec, TagStruct, ValueModel,
};
use crate::INVALID_INDEX;

verus! {

/// A request correlator chosen by the client and echoed by the server.
pub type Tag = u32;

/// A typed request: what command kind its header carries.
pub trait Command {
    /// The command kind of this request.
    spec fn kind_spec() -> CommandKind;

    /// The command kind of this request.
    fn kind() -> (k: CommandKind)
        ensures
            k == Self::kind_spec(),
    ;
}

/// Every command kind of the wire protocol, in ordinal order; the code of
/// each kind is its position in the upstream command table.
#[allow(non_camel_case_types)]
#[derive(Debug, Clone, Copy, PartialEq, Eq, Structural)]
pub enum CommandKind {
    Error,
    Timeout,
    Reply,
    CreatePlaybackStream,
    DeletePlaybackStream,
    CreateRecordStream,
    DeleteRecordStream,
    Exit,
    Auth,
    SetClientName,
    LookupSink,
    LookupSource,
    DrainPlaybackStream,
    Stat,
    GetPlaybackLatency,
    CreateUploadStream,
    DeleteUploadStream,
    FinishUploadStream,
    PlaySample,
    RemoveSample,
    GetServerInfo,
    GetSinkInfo,
    GetSinkInfoList,
    GetSourceInfo,
    GetSourceInfoList,
    GetModuleInfo,
    GetModuleInfoList,
    GetClientInfo,
    GetClientInfoList,
    GetSinkInputInfo,
    GetSinkInputInfoList,
    GetSourceOutputInfo,
    GetSourceOutputInfoList,
    GetSampleInfo,
    GetSampleInfoList,
    Subscribe,
    SetSinkVolume,
    SetSinkInputVolume,
    SetSourceVolume,
    SetSinkMute,
    SetSourceMute,
    CorkPlaybackStream,
    FlushPlaybackStream,
    TriggerPlaybackStream,
    SetDefaultSink,
    SetDefaultSource,
    SetPlaybackStreamName,
    SetRecordStreamName,
    KillClient,
    KillSinkInput,
    KillSourceOutput,
    LoadModule,
    UnloadModule,
    AddAutoload__Obsolete,
    RemoveAutoload__Obsolete,
    GetAutoloadInfo__Obsolete,
    GetAutoloadInfoList__Obsolete,
    GetRecordLatency,
    CorkRecordStream,
    FlushRecordStream,
    PrebufPlaybackStream,
    Request,
    Overflow,
    Underflow,
    PlaybackStreamKilled,
    RecordStreamKilled,
    SubscribeEvent,
    MoveSinkInput,
    MoveSourceOutput,
    SetSinkInputMute,
    SuspendSink,
    SuspendSource,
    SetPlaybackStreamBufferAttr,
    SetRecordStreamBufferAttr,
    UpdatePlaybackStreamSampleRate,
    UpdateRecordStreamSampleRate,
    PlaybackStreamSuspended,
    RecordStreamSuspended,
    PlaybackStreamMoved,
    RecordStreamMoved,
    UpdateRecordStreamProplist,
    UpdatePlaybackStreamProplist,
    UpdateClientProplist,
    RemoveRecordStreamProplist,
    RemovePlaybackStreamProplist,
    RemoveClientProplist,
    Started,
    Extension,
    GetCardInfo,
    GetCardInfoList,
    SetCardProfile,
    ClientEvent,
    PlaybackStreamEvent,
    RecordStreamEvent,
    PlaybackBufferAttrChanged,
    RecordBufferAttrChanged,
    SetSinkPort,
    SetSourcePort,
    SetSourceOutputVolume,
    SetSourceOutputMute,
    SetPortLatencyOffset,
    EnableSrbChannel,
    DisableSrbChannel,
    RegisterMemFdShmId,
}

impl CommandKind {
    /// The code that stands for this kind on the wire.
    pub open spec fn code(self) -> u32 {
        match self {
            CommandKind::Error => 0,
            CommandKind::Timeout => 1,
            CommandKind::Reply => 2,
            CommandKind::CreatePlaybackStream => 3,
            CommandKind::DeletePlaybackStream => 4,
            CommandKind::CreateRecordStream => 5,
            CommandKind::DeleteRecordStream => 6,
            CommandKind::Exit => 7,
            CommandKind::Auth => 8,
            CommandKind::SetClientName => 9,
            CommandKind::LookupSink => 10,
            CommandKind::LookupSource => 11,
            CommandKind::DrainPlaybackStream => 12,
            CommandKind::Stat => 13,
            CommandKind::GetPlaybackLatency => 14,
            CommandKind::CreateUploadStream => 15,
            CommandKind::DeleteUploadStream => 16,
            CommandKind::FinishUploadStream => 17,
            CommandKind::PlaySample => 18,
            CommandKind::RemoveSample => 19,
            CommandKind::GetServerInfo => 20,
            CommandKind::GetSinkInfo => 21,
            CommandKind::GetSinkInfoList => 22,
            CommandKind::GetSourceInfo => 23,
            CommandKind::GetSourceInfoList => 24,
            CommandKind::GetModuleInfo => 25,
            CommandKind::GetModuleInfoList => 26,
            CommandKind::GetClientInfo => 27,
            CommandKind::GetClientInfoList => 28,
            CommandKind::GetSinkInputInfo => 29,
            CommandKind::GetSinkInputInfoList => 30,
            CommandKind::GetSourceOutputInfo => 31,
            CommandKind::GetSourceOutputInfoList => 32,
            CommandKind::GetSampleInfo => 33,
            CommandKind::GetSampleInfoList => 34,
            CommandKind::Subscribe => 35,
            CommandKind::SetSinkVolume => 36,
            CommandKind::SetSinkInputVolume => 37,
            CommandKind::SetSourceVolume => 38,
            CommandKind::SetSinkMute => 39,
            CommandKind::SetSourceMute => 40,
            CommandKind::CorkPlaybackStream => 41,
            CommandKind::FlushPlaybackStream => 42,
            CommandKind::TriggerPlaybackStream => 43,
            CommandKind::SetDefaultSink => 44,
            CommandKind::SetDefaultSource => 45,
            CommandKind::SetPlaybackStreamName => 46,
            CommandKind::SetRecordStreamName => 47,
            CommandKind::KillClient => 48,
            CommandKind::KillSinkInput => 49,
            CommandKind::KillSourceOutput => 50,
            CommandKind::LoadModule => 51,
            CommandKind::UnloadModule => 52,
            CommandKind::AddAutoload__Obsolete => 53,
            CommandKind::RemoveAutoload__Obsolete => 54,
            CommandKind::GetAutoloadInfo__Obsolete => 55,
            CommandKind::GetAutoloadInfoList__Obsolete => 56,
            CommandKind::GetRecordLatency => 57,
            CommandKind::CorkRecordStream => 58,
            CommandKind::FlushRecordStream => 59,
            CommandKind::PrebufPlaybackStream => 60,
            CommandKind::Request => 61,
            CommandKind::Overflow => 62,
            CommandKind::Underflow => 63,
            CommandKind::PlaybackStreamKilled => 64,
            CommandKind::RecordStreamKilled => 65,
            CommandKind::SubscribeEvent => 66,
            CommandKind::MoveSinkInput => 67,
            CommandKind::MoveSourceOutput => 68,
            CommandKind::SetSinkInputMute => 69,
            CommandKind::SuspendSink => 70,
            CommandKind::SuspendSource => 71,
            CommandKind::SetPlaybackStreamBufferAttr => 72,
            CommandKind::SetRecordStreamBufferAttr => 73,
            CommandKind::UpdatePlaybackStreamSampleRate => 74,
            CommandKind::UpdateRecordStreamSampleRate => 75,
            CommandKind::PlaybackStreamSuspended => 76,
            CommandKind::RecordStreamSuspended => 77,
            CommandKind::PlaybackStreamMoved => 78,
            CommandKind::RecordStreamMoved => 79,
            CommandKind::UpdateRecordStreamProplist => 80,
            CommandKind::UpdatePlaybackStreamProplist => 81,
            CommandKind::UpdateClientProplist => 82,
            CommandKind::RemoveRecordStreamProplist => 83,
            CommandKind::RemovePlaybackStreamProplist => 84,
            CommandKind::RemoveClientProplist => 85,
            CommandKind::Started => 86,
            CommandKind::Extension => 87,
            CommandKind::GetCardInfo => 88,
            CommandKind::GetCardInfoList => 89,
            CommandKind::SetCardProfile => 90,
            CommandKind::ClientEvent => 91,
            CommandKind::PlaybackStreamEvent => 92,
            CommandKind::RecordStreamEvent => 93,
            CommandKind::PlaybackBufferAttrChanged => 94,
            CommandKind::RecordBufferAttrChanged => 95,
            CommandKind::SetSinkPort => 96,
            CommandKind::SetSourcePort => 97,
            CommandKind::SetSourceOutputVolume => 98,
            CommandKind::SetSourceOutputMute => 99,
            CommandKind::SetPortLatencyOffset => 100,
            CommandKind::EnableSrbChannel => 101,
            CommandKind::DisableSrbChannel => 102,
            CommandKind::RegisterMemFdShmId => 103,
        }
    }

    /// The kind a wire code stands for, if any.
    pub open spec fn from_code(c: u32) -> Option<CommandKind> {
        match c {
            0 => Some(CommandKind::Error),
            1 => Some(CommandKind::Timeout),
            2 => Some(CommandKind::Reply),
            3 => Some(CommandKind::CreatePlaybackStream),
            4 => Some(CommandKind::DeletePlaybackStream),
            5 => Some(CommandKind::CreateRecordStream),
            6 => Some(CommandKind::DeleteRecordStream),
            7 => Some(CommandKind::Exit),
            8 => Some(CommandKind::Auth),
            9 => Some(CommandKind::SetClientName),
            10 => Some(CommandKind::LookupSink),
            11 => Some(CommandKind::LookupSource),
            12 => Some(CommandKind::DrainPlaybackStream),
            13 => Some(CommandKind::Stat),
            14 => Some(CommandKind::GetPlaybackLatency),
            15 => Some(CommandKind::CreateUploadStream),
            16 => Some(CommandKind::DeleteUploadStream),
            17 => Some(CommandKind::FinishUploadStream),
            18 => Some(CommandKind::PlaySample),
            19 => Some(CommandKind::RemoveSample),
            20 => Some(CommandKind::GetServerInfo),
            21 => Some(CommandKind::GetSinkInfo),
            22 => Some(CommandKind::GetSinkInfoList),
            23 => Some(CommandKind::GetSourceInfo),
            24 => Some(CommandKind::GetSourceInfoList),
            25 => Some(CommandKind::GetModuleInfo),
            26 => Some(CommandKind::GetModuleInfoList),
            27 => Some(CommandKind::GetClientInfo),
            28 => Some(CommandKind::GetClientInfoList),
            29 => Some(CommandKind::GetSinkInputInfo),
            30 => Some(CommandKind::GetSinkInputInfoList),
            31 => Some(CommandKind::GetSourceOutputInfo),
            32 => Some(CommandKind::GetSourceOutputInfoList),
            33 => Some(CommandKind::GetSampleInfo),
            34 => Some(CommandKind::GetSampleInfoList),
            35 => Some(CommandKind::Subscribe),
            36 => Some(CommandKind::SetSinkVolume),
            37 => Some(CommandKind::SetSinkInputVolume),
            38 => Some(CommandKind::SetSourceVolume),
            39 => Some(CommandKind::SetSinkMute),
            40 => Some(CommandKind::SetSourceMute),
            41 => Some(CommandKind::CorkPlaybackStream),
            42 => Some(CommandKind::FlushPlaybackStream),
            43 => Some(CommandKind::TriggerPlaybackStream),
            44 => Some(CommandKind::SetDefaultSink),
            45 => Some(CommandKind::SetDefaultSource),
            46 => Some(CommandKind::SetPlaybackStreamName),
            47 => Some(CommandKind::SetRecordStreamName),
            48 => Some(CommandKind::KillClient),
            49 => Some(CommandKind::KillSinkInput),
            50 => Some(CommandKind::KillSourceOutput),
            51 => Some(CommandKind::LoadModule),
            52 => Some(CommandKind::UnloadModule),
            53 => Some(CommandKind::AddAutoload__Obsolete),
            54 => Some(CommandKind::RemoveAutoload__Obsolete),
            55 => Some(CommandKind::GetAutoloadInfo__Obsolete),
            56 => Some(CommandKind::GetAutoloadInfoList__Obsolete),
            57 => Some(CommandKind::GetRecordLatency),
            58 => Some(CommandKind::CorkRecordStream),
            59 => Some(CommandKind::FlushRecordStream),
            60 => Some(CommandKind::PrebufPlaybackStream),
            61 => Some(CommandKind::Request),
            62 => Some(CommandKind::Overflow),
            63 => Some(CommandKind::Underflow),
            64 => Some(CommandKind::PlaybackStreamKilled),
            65 => Some(CommandKind::RecordStreamKilled),
            66 => Some(CommandKind::SubscribeEvent),
            67 => Some(CommandKind::MoveSinkInput),
            68 => Some(CommandKind::MoveSourceOutput),
            69 => Some(CommandKind::SetSinkInputMute),
            70 => Some(CommandKind::SuspendSink),
            71 => Some(CommandKind::SuspendSource),
            72 => Some(CommandKind::SetPlaybackStreamBufferAttr),
            73 => Some(CommandKind::SetRecordStreamBufferAttr),
            74 => Some(CommandKind::UpdatePlaybackStreamSampleRate),
            75 => Some(CommandKind::UpdateRecordStreamSampleRate),
            76 => Some(CommandKind::PlaybackStreamSuspended),
            77 => Some(CommandKind::RecordStreamSuspended),
            78 => Some(CommandKind::PlaybackStreamMoved),
            79 => Some(CommandKind::RecordStreamMoved),
            80 => Some(CommandKind::UpdateRecordStreamProplist),
            81 => Some(CommandKind::UpdatePlaybackStreamProplist),
            82 => Some(CommandKind::UpdateClientProplist),
            83 => Some(CommandKind::RemoveRecordStreamProplist),
            84 => Some(CommandKind::RemovePlaybackStreamProplist),
            85 => Some(CommandKind::RemoveClientProplist),
            86 => Some(CommandKind::Started),
            87 => Some(CommandKind::Extension),
            88 => Some(CommandKind::GetCardInfo),
            89 => Some(CommandKind::GetCardInfoList),
            90 => Some(CommandKind::SetCardProfile),
            91 => Some(CommandKind::ClientEvent),
            92 => Some(CommandKind::PlaybackStreamEvent),
            93 => Some(CommandKind::RecordStreamEvent),
            94 => Some(CommandKind::PlaybackBufferAttrChanged),
            95 => Some(CommandKind::RecordBufferAttrChanged),
            96 => Some(CommandKind::SetSinkPort),
            97 => Some(CommandKind::SetSourcePort),
            98 => Some(CommandKind::SetSourceOutputVolume),
            99 => Some(CommandKind::SetSourceOutputMute),
            100 => Some(CommandKind::SetPortLatencyOffset),
            101 => Some(CommandKind::EnableSrbChannel),
            102 => Some(CommandKind::DisableSrbChannel),
            103 => Some(CommandKind::RegisterMemFdShmId),
            _ => None,
        }
    }

    pub fn to_u32(self) -> (c: u32)
        ensures
            c == self.code(),
    {
        match self {
            CommandKind::Error => 0,
            CommandKind::Timeout => 1,
            CommandKind::Reply => 2,
            CommandKind::CreatePlaybackStream => 3,
            CommandKind::DeletePlaybackStream => 4,
            CommandKind::CreateRecordStream => 5,
            CommandKind::DeleteRecordStream => 6,
            CommandKind::Exit => 7,
            CommandKind::Auth => 8,
            CommandKind::SetClientName => 9,
            CommandKind::LookupSink => 10,
            CommandKind::LookupSource => 11,
            CommandKind::DrainPlaybackStream => 12,
            CommandKind::Stat => 13,
            CommandKind::GetPlaybackLatency => 14,
            CommandKind::CreateUploadStream => 15,
            CommandKind::DeleteUploadStream => 16,
            CommandKind::FinishUploadStream => 17,
            CommandKind::PlaySample => 18,
            CommandKind::RemoveSample => 19,
            CommandKind::GetServerInfo => 20,
            CommandKind::GetSinkInfo => 21,
            CommandKind::GetSinkInfoList => 22,
            CommandKind::GetSourceInfo => 23,
            CommandKind::GetSourceInfoList => 24,
            CommandKind::GetModuleInfo => 25,
            CommandKind::GetModuleInfoList => 26,
            CommandKind::GetClientInfo => 27,
            CommandKind::GetClientInfoList => 28,
            CommandKind::GetSinkInputInfo => 29,
            CommandKind::GetSinkInputInfoList => 30,
            CommandKind::GetSourceOutputInfo => 31,
            CommandKind::GetSourceOutputInfoList => 32,
            CommandKind::GetSampleInfo => 33,
            CommandKind::GetSampleInfoList => 34,
            CommandKind::Subscribe => 35,
            CommandKind::SetSinkVolume => 36,
            CommandKind::SetSinkInputVolume => 37,
            CommandKind::SetSourceVolume => 38,
            CommandKind::SetSinkMute => 39,
            CommandKind::SetSourceMute => 40,
            CommandKind::CorkPlaybackStream => 41,
            CommandKind::FlushPlaybackStream => 42,
            CommandKind::TriggerPlaybackStream => 43,
            CommandKind::SetDefaultSink => 44,
            CommandKind::SetDefaultSource => 45,
            CommandKind::SetPlaybackStreamName => 46,
            CommandKind::SetRecordStreamName => 47,
            CommandKind::KillClient => 48,
            CommandKind::KillSinkInput => 49,
            CommandKind::KillSourceOutput => 50,
            CommandKind::LoadModule => 51,
            CommandKind::UnloadModule => 52,
            CommandKind::AddAutoload__Obsolete => 53,
            CommandKind::RemoveAutoload__Obsolete => 54,
            CommandKind::GetAutoloadInfo__Obsolete => 55,
            CommandKind::GetAutoloadInfoList__Obsolete => 56,
            CommandKind::GetRecordLatency => 57,
            CommandKind::CorkRecordStream => 58,
            CommandKind::FlushRecordStream => 59,
            CommandKind::PrebufPlaybackStream => 60,
            CommandKind::Request => 61,
            CommandKind::Overflow => 62,
            CommandKind::Underflow => 63,
            CommandKind::PlaybackStreamKilled => 64,
            CommandKind::RecordStreamKilled => 65,
            CommandKind::SubscribeEvent => 66,
            CommandKind::MoveSinkInput => 67,
            CommandKind::MoveSourceOutput => 68,
            CommandKind::SetSinkInputMute => 69,
            CommandKind::SuspendSink => 70,
            CommandKind::SuspendSource => 71,
            CommandKind::SetPlaybackStreamBufferAttr => 72,
            CommandKind::SetRecordStreamBufferAttr => 73,
            CommandKind::UpdatePlaybackStreamSampleRate => 74,
            CommandKind::UpdateRecordStreamSampleRate => 75,
            CommandKind::PlaybackStreamSuspended => 76,
            CommandKind::RecordStreamSuspended => 77,
            CommandKind::PlaybackStreamMoved => 78,
            CommandKind::RecordStreamMoved => 79,
            CommandKind::UpdateRecordStreamProplist => 80,
            CommandKind::UpdatePlaybackStreamProplist => 81,
            CommandKind::UpdateClientProplist => 82,
            CommandKind::RemoveRecordStreamProplist => 83,
            CommandKind::RemovePlaybackStreamProplist => 84,
            CommandKind::RemoveClientProplist => 85,
            CommandKind::Started => 86,
            CommandKind::Extension => 87,
            CommandKind::GetCardInfo => 88,
            CommandKind::GetCardInfoList => 89,
            CommandKind::SetCardProfile => 90,
            CommandKind::ClientEvent => 91,
            CommandKind::PlaybackStreamEvent => 92,
            CommandKind::RecordStreamEvent => 93,
            CommandKind::PlaybackBufferAttrChanged => 94,
            CommandKind::RecordBufferAttrChanged => 95,
            CommandKind::SetSinkPort => 96,
            CommandKind::SetSourcePort => 97,
            CommandKind::SetSourceOutputVolume => 98,
            CommandKind::SetSourceOutputMute => 99,
            CommandKind::SetPortLatencyOffset => 100,
            CommandKind::EnableSrbChannel => 101,
            CommandKind::DisableSrbChannel => 102,
            CommandKind::RegisterMemFdShmId => 103,
        }
    }

    pub fn from_u32(c: u32) -> (r: Option<CommandKind>)
        ensures
            r == CommandKind::from_code(c),
    {
        match c {
            0 => Some(CommandKind::Error),
            1 => Some(CommandKind::Timeout),
            2 => Some(CommandKind::Reply),
            3 => Some(CommandKind::CreatePlaybackStream),
            4 => Some(CommandKind::DeletePlaybackStream),
            5 => Some(CommandKind::CreateRecordStream),
            6 => Some(CommandKind::DeleteRecordStream),
            7 => Some(CommandKind::Exit),
            8 => Some(CommandKind::Auth),
            9 => Some(CommandKind::SetClientName),
            10 => Some(CommandKind::LookupSink),
            11 => Some(CommandKind::LookupSource),
            12 => Some(CommandKind::DrainPlaybackStream),
            13 => Some(CommandKind::Stat),
            14 => Some(CommandKind::GetPlaybackLatency),
            15 => Some(CommandKind::CreateUploadStream),
            16 => Some(CommandKind::DeleteUploadStream),
            17 => Some(CommandKind::FinishUploadStream),
            18 => Some(CommandKind::PlaySample),
            19 => Some(CommandKind::RemoveSample),
            20 => Some(CommandKind::GetServerInfo),
            21 => Some(CommandKind::GetSinkInfo),
            22 => Some(CommandKind::GetSinkInfoList),
            23 => Some(CommandKind::GetSourceInfo),
            24 => Some(CommandKind::GetSourceInfoList),
            25 => Some(CommandKind::GetModuleInfo),
            26 => Some(CommandKind::GetModuleInfoList),
            27 => Some(CommandKind::GetClientInfo),
            28 => Some(CommandKind::GetClientInfoList),
            29 => Some(CommandKind::GetSinkInputInfo),
            30 => Some(CommandKind::GetSinkInputInfoList),
            31 => Some(CommandKind::GetSourceOutputInfo),
            32 => Some(CommandKind::GetSourceOutputInfoList),
            33 => Some(CommandKind::GetSampleInfo),
            34 => Some(CommandKind::GetSampleInfoList),
            35 => Some(CommandKind::Subscribe),
            36 => Some(CommandKind::SetSinkVolume),
            37 => Some(CommandKind::SetSinkInputVolume),
            38 => Some(CommandKind::SetSourceVolume),
            39 => Some(CommandKind::SetSinkMute),
            40 => Some(CommandKind::SetSourceMute),
            41 => Some(CommandKind::CorkPlaybackStream),
            42 => Some(CommandKind::FlushPlaybackStream),
            43 => Some(CommandKind::TriggerPlaybackStream),
            44 => Some(CommandKind::SetDefaultSink),
            45 => Some(CommandKind::SetDefaultSource),
            46 => Some(CommandKind::SetPlaybackStreamName),
            47 => Some(CommandKind::SetRecordStreamName),
            48 => Some(CommandKind::KillClient),
            49 => Some(CommandKind::KillSinkInput),
            50 => Some(CommandKind::KillSourceOutput),
            51 => Some(CommandKind::LoadModule),
            52 => Some(CommandKind::UnloadModule),
            53 => Some(CommandKind::AddAutoload__Obsolete),
            54 => Some(CommandKind::RemoveAutoload__Obsolete),
            55 => Some(CommandKind::GetAutoloadInfo__Obsolete),
            56 => Some(CommandKind::GetAutoloadInfoList__Obsolete),
            57 => Some(CommandKind::GetRecordLatency),
            58 => Some(CommandKind::CorkRecordStream),
            59 => Some(CommandKind::FlushRecordStream),
            60 => Some(CommandKind::PrebufPlaybackStream),
            61 => Some(CommandKind::Request),
            62 => Some(CommandKind::Overflow),
            63 => Some(CommandKind::Underflow),
            64 => Some(CommandKind::PlaybackStreamKilled),
            65 => Some(CommandKind::RecordStreamKilled),
            66 => Some(CommandKind::SubscribeEvent),
            67 => Some(CommandKind::MoveSinkInput),
            68 => Some(CommandKind::MoveSourceOutput),
            69 => Some(CommandKind::SetSinkInputMute),
            70 => Some(CommandKind::SuspendSink),
            71 => Some(CommandKind::SuspendSource),
            72 => Some(CommandKind::SetPlaybackStreamBufferAttr),
            73 => Some(CommandKind::SetRecordStreamBufferAttr),
            74 => Some(CommandKind::UpdatePlaybackStreamSampleRate),
            75 => Some(CommandKind::UpdateRecordStreamSampleRate),
            76 => Some(CommandKind::PlaybackStreamSuspended),
            77 => Some(CommandKind::RecordStreamSuspended),
            78 => Some(CommandKind::PlaybackStreamMoved),
            79 => Some(CommandKind::RecordStreamMoved),
            80 => Some(CommandKind::UpdateRecordStreamProplist),
            81 => Some(CommandKind::UpdatePlaybackStreamProplist),
            82 => Some(CommandKind::UpdateClientProplist),
            83 => Some(CommandKind::RemoveRecordStreamProplist),
            84 => Some(CommandKind::RemovePlaybackStreamProplist),
            85 => Some(CommandKind::RemoveClientProplist),
            86 => Some(CommandKind::Started),
            87 => Some(CommandKind::Extension),
            88 => Some(CommandKind::GetCardInfo),
            89 => Some(CommandKind::GetCardInfoList),
            90 => Some(CommandKind::SetCardProfile),
            91 => Some(CommandKind::ClientEvent),
            92 => Some(CommandKind::PlaybackStreamEvent),
            93 => Some(CommandKind::RecordStreamEvent),
            94 => Some(CommandKind::PlaybackBufferAttrChanged),
            95 => Some(CommandKind::RecordBufferAttrChanged),
            96 => Some(CommandKind::SetSinkPort),
            97 => Some(CommandKind::SetSourcePort),
            98 => Some(CommandKind::SetSourceOutputVolume),
            99 => Some(CommandKind::SetSourceOutputMute),
            100 => Some(CommandKind::SetPortLatencyOffset),
            101 => Some(CommandKind::EnableSrbChannel),
            102 => Some(CommandKind::DisableSrbChannel),
            103 => Some(CommandKind::RegisterMemFdShmId),
            _ => None,
        }
    }

    /// Decoding the code of a kind gives that kind back.
    pub proof fn lemma_code_round_trip(self)
        ensures
            CommandKind::from_code(self.code()) == Some(self),
    {
    }

    /// Encoding a decoded code gives that code back.
    pub proof fn lemma_from_code_round_trip(c: u32)
        ensures
            CommandKind::from_code(c) matches Some(v) ==> v.code() == c,
    {
    }

    /// Whether this kind is the reply to a request.
    pub fn is_reply(&self) -> (r: bool)
        ensures
            r == (*self == CommandKind::Reply),
    {
        match self {
            CommandKind::Reply => true,
            _ => false,
        }
    }

    /// Whether this kind is a server-sent error reply.
    pub fn is_error(&self) -> (r: bool)
        ensures
            r == (*self == CommandKind::Error),
    {
        match self {
            CommandKind::Error => true,
            _ => false,
        }
    }

    /// Whether this kind is a request or event the server may send on its
    /// own: such frames are dispatched to an event sink, never to a reply
    /// slot.
    pub open spec fn is_server_event_spec(self) -> bool {
        ||| self is Request
        ||| self is Overflow
        ||| self is Underflow
        ||| self is PlaybackStreamKilled
        ||| self is RecordStreamKilled
        ||| self is SubscribeEvent
        ||| self is PlaybackStreamSuspended
        ||| self is RecordStreamSuspended
        ||| self is PlaybackStreamMoved
        ||| self is RecordStreamMoved
        ||| self is Started
        ||| self is ClientEvent
        ||| self is PlaybackStreamEvent
        ||| self is RecordStreamEvent
        ||| self is PlaybackBufferAttrChanged
        ||| self is RecordBufferAttrChanged
    }

    pub fn is_server_event(&self) -> (r: bool)
        ensures
            r == self.is_server_event_spec(),
    {
        match self {
            CommandKind::Request => true,
            CommandKind::Overflow => true,
            CommandKind::Underflow => true,
            CommandKind::PlaybackStreamKilled => true,
            CommandKind::RecordStreamKilled => true,
            CommandKind::SubscribeEvent => true,
            CommandKind::PlaybackStreamSuspended => true,
            CommandKind::RecordStreamSuspended => true,
            CommandKind::PlaybackStreamMoved => true,
            CommandKind::RecordStreamMoved => true,
            CommandKind::Started => true,
            CommandKind::ClientEvent => true,
            CommandKind::PlaybackStreamEvent => true,
            CommandKind::RecordStreamEvent => true,
            CommandKind::PlaybackBufferAttrChanged => true,
            CommandKind::RecordBufferAttrChanged => true,
            _ => false,
        }
    }
}

impl View for CommandKind {
    type V = CommandKind;

    open spec fn view(&self) -> CommandKind {
        *self
    }
}

impl Put for CommandKind {
    open spec fn put_model(self) -> Seq<ValueModel> {
        seq![ValueModel::U32(self.code())]
    }

    fn put(self, tag_struct: &mut TagStruct) {
        tag_struct.put_u32(self.to_u32());
        proof {
            assert(tag_struct@ =~= old(tag_struct)@ + self.put_model());
        }
    }
}

impl Pop for CommandKind {
    open spec fn pop_model(vs: Seq<ValueModel>) -> Option<(CommandKind, Seq<ValueModel>)> {
        if vs.len() >= 1 && vs[0] is U32 && CommandKind::from_code(vs[0]->U32_0) is Some {
            Some((CommandKind::from_code(vs[0]->U32_0)->Some_0, vs.skip(1)))
        } else {
            None
        }
    }

    fn pop(tag_struct: &mut TagStruct) -> (r: Result<Self, Error>) {
        let ghost orig = tag_struct@;
        let code = match tag_struct.pop_u32() {
            Ok(c) => c,
            Err(e) => {
                proof {
                    if orig.len() == 0 {
                        assert(tag_struct@ == orig.skip(0));
                    } else {
                        assert(tag_struct@ =~= orig.skip(1));
                    }
                }
                return Err(e);
            },
        };
        proof {
            assert(tag_struct@ =~= orig.skip(1));
        }
        match CommandKind::from_u32(code) {
            Some(kind) => Ok(kind),
            None => Err(Error::UnknownCommand),
        }
    }
}

/// The first two values of every command payload: the kind and the tag.
#[derive(Debug, Clone, Copy, PartialEq, Eq, Structural)]
pub struct CommandHeader {
    pub command_kind: CommandKind,
    pub tag: Tag,
}

impl View for CommandHeader {
    type V = CommandHeader;

    open spec fn view(&self) -> CommandHeader {
        *self
    }
}

impl Put for CommandHeader {
    open spec fn put_model(self) -> Seq<ValueModel> {
        seq![ValueModel::U32(self.command_kind.code()), ValueModel::U32(self.tag)]
    }

    fn put(self, tag_struct: &mut TagStruct) {
        tag_struct.put_u32(self.command_kind.to_u32());
        tag_struct.put_u32(self.tag);
        proof {
            assert(tag_struct@ =~= old(tag_struct)@ + self.put_model());
        }
    }
}

impl Pop for CommandHeader {
    open spec fn pop_model(vs: Seq<ValueModel>) -> Option<(CommandHeader, Seq<ValueModel>)> {
        if vs.len() >= 2 && vs[0] is U32 && vs[1] is U32 && CommandKind::from_code(vs[0]->U32_0)
            is Some {
            Some(
                (
                    CommandHeader {
                        command_kind: CommandKind::from_code(vs[0]->U32_0)->Some_0,
                        tag: vs[1]->U32_0,
                    },
                    vs.skip(2),
                ),
            )
        } else {
            None
        }
    }

    fn pop(tag_struct: &mut TagStruct) -> (r: Result<Self, Error>) {
        let ghost orig = tag_struct@;
        let code = match tag_struct.pop_u32() {
            Ok(c) => c,
            Err(e) => {
                proof {
                    if orig.len() == 0 {
                        assert(tag_struct@ == orig.skip(0));
                    } else {
                        assert(tag_struct@ =~= orig.skip(1));
                    }
                }
                return Err(e);
            },
        };
        proof {
            assert(tag_struct@ =~= orig.skip(1));
        }
        let command_kind = match CommandKind::from_u32(code) {
            Some(kind) => kind,
            None => {
                return Err(Error::UnknownCommand);
            },
        };
        let tag = match tag_struct.pop_u32() {
            Ok(t) => t,
            Err(e) => {
                proof {
                    if orig.skip(1).len() == 0 {
                        assert(tag_struct@ == orig.skip(1));
                    } else {
                        assert(tag_struct@ =~= orig.skip(2));
                    }
                }
                return Err(e);
            },
        };
        proof {
            assert(tag_struct@ =~= orig.skip(2));
        }
        Ok(CommandHeader { command_kind, tag })
    }
}

/// The authentication request: the proposed protocol version and the cookie.
#[derive(Debug, PartialEq)]
pub struct Auth {
    pub protocol_version: u32,
    pub cookie: Vec<u8>,
}

impl Command for Auth {
    open spec fn kind_spec() -> CommandKind {
        CommandKind::Auth
    }

    fn kind() -> CommandKind {
        CommandKind::Auth
    }
}

impl Put for Auth {
    open spec fn put_model(self) -> Seq<ValueModel> {
        seq![ValueModel::U32(self.protocol_version), ValueModel::Arbitrary(self.cookie@)]
    }

    fn put(self, tag_struct: &mut TagStruct) {
        let ghost me = self;
        tag_struct.put_u32(self.protocol_version);
        tag_struct.put_arbitrary(self.cookie);
        proof {
            assert(tag_struct@ =~= old(tag_struct)@ + me.put_model());
        }
    }
}

/// The reply to `Auth`: the protocol version the server speaks.
#[derive(Debug, Clone, Copy, PartialEq, Eq, Structural)]
pub struct AuthReply {
    pub protocol_version: u32,
}

impl View for AuthReply {
    type V = AuthReply;

    open spec fn view(&self) -> AuthReply {
        *self
    }
}

impl Pop for AuthReply {
    open spec fn pop_model(vs: Seq<ValueModel>) -> Option<(AuthReply, Seq<ValueModel>)> {
        if vs.len() >= 1 && vs[0] is U32 {
            Some((AuthReply { protocol_version: vs[0]->U32_0 }, vs.skip(1)))
        } else {
            None
        }
    }

    fn pop(tag_struct: &mut TagStruct) -> (r: Result<Self, Error>) {
        let ghost orig = tag_struct@;
        let protocol_version = match tag_struct.pop_u32() {
            Ok(v) => v,
            Err(e) => {
                proof {
                    if orig.len() == 0 {
                        assert(tag_struct@ == orig.skip(0));
                    } else {
                        assert(tag_struct@ =~= orig.skip(1));
                    }
                }
                return Err(e);
            },
        };
        proof {
            assert(tag_struct@ =~= orig.skip(1));
        }
        Ok(AuthReply { protocol_version })
    }
}

/// A sink named either by server-assigned index or by name.
#[derive(Debug, PartialEq)]
pub enum SinkRef {
    Index(u32),
    Name(std::string::String),
}

impl SinkRef {
    /// The index value this reference puts on the wire.
    pub open spec fn index_value(self) -> u32 {
        match self {
            SinkRef::Index(i) => i,
            SinkRef::Name(_) => INVALID_INDEX,
        }
    }

    /// The name value this reference puts on the wire.
    pub open spec fn name_value(self) -> Option<Seq<char>> {
        match self {
            SinkRef::Index(_) => None,
            SinkRef::Name(n) => Some(n@),
        }
    }

    /// A reference by server-assigned index.
    pub fn index(index: u32) -> (r: Self)
        ensures
            r == SinkRef::Index(index),
    {
        SinkRef::Index(index)
    }

    /// A reference by sink name.
    pub fn name(name: std::string::String) -> (r: Self)
        ensures
            r is Name && r->Name_0@ == name@,
    {
        SinkRef::Name(name)
    }
}

/// A request to play a named sample on a sink.
#[derive(Debug, PartialEq)]
pub struct PlaySample {
    pub sink_ref: SinkRef,
    pub volume: u32,
    pub sample_name: std::string::String,
}

impl Command for PlaySample {
    open spec fn kind_spec() -> CommandKind {
        CommandKind::PlaySample
    }

    fn kind() -> CommandKind {
        CommandKind::PlaySample
    }
}

impl Put for PlaySample {
    open spec fn put_model(self) -> Seq<ValueModel> {
        seq![
            ValueModel::U32(self.sink_ref.index_value()),
            ValueModel::String(self.sink_ref.name_value()),
            ValueModel::U32(self.volume),
            ValueModel::String(Some(self.sample_name@)),
        ]
    }

    fn put(self, tag_struct: &mut TagStruct) {
        let ghost me = self;
        let (sink_index, sink_name) = match self.sink_ref {
            SinkRef::Index(index) => (index, None),
            SinkRef::Name(name) => (INVALID_INDEX, Some(name)),
        };
        tag_struct.put_u32(sink_index);
        tag_struct.put_string(sink_name);
        tag_struct.put_u32(self.volume);
        tag_struct.put_string(Some(self.sample_name));
        proof {
            assert(tag_struct@ =~= old(tag_struct)@ + me.put_model());
        }
    }
}

/// A request for the server's identity and defaults.
#[derive(Debug, PartialEq)]
pub struct GetServerInfo;

impl Command for GetServerInfo {
    open spec fn kind_spec() -> CommandKind {
        CommandKind::GetServerInfo
    }

    fn kind() -> CommandKind {
        CommandKind::GetServerInfo
    }
}

impl Put for GetServerInfo {
    open spec fn put_model(self) -> Seq<ValueModel> {
        Seq::empty()
    }

    fn put(self, tag_struct: &mut TagStruct) {
        proof {
            assert(tag_struct@ =~= old(tag_struct)@ + self.put_model());
        }
    }
}

/// The reply to `GetServerInfo`.
#[derive(Debug, PartialEq)]
pub struct ServerInfo {
    pub server_name: Option<std::string::String>,
    pub server_version: Option<std::string::String>,
    pub user_name: Option<std::string::String>,
    pub host_name: Option<std::string::String>,
    pub sample_spec: SampleSpec,
    pub default_sink_name: Option<std::string::String>,
    pub default_source_name: Option<std::string::String>,
    pub instance_cookie: u32,
}

/// The mathematical shape of a `ServerInfo`.
pub struct ServerInfoModel {
    pub server_name: Option<Seq<char>>,
    pub server_version: Option<Seq<char>>,
    pub user_name: Option<Seq<char>>,
    pub host_name: Option<Seq<char>>,
    pub sample_spec: SampleSpec,
    pub default_sink_name: Option<Seq<char>>,
    pub default_source_name: Option<Seq<char>>,
    pub instance_cookie: u32,
}

impl View for ServerInfo {
    type V = ServerInfoModel;

    open spec fn view(&self) -> ServerInfoModel {
        ServerInfoModel {
            server_name: option_string_view(self.server_name),
            server_version: option_string_view(self.server_version),
            user_name: option_string_view(self.user_name),
            host_name: option_string_view(self.host_name),
            sample_spec: self.sample_spec,
            default_sink_name: option_string_view(self.default_sink_name),
            default_source_name: option_string_view(self.default_source_name),
            instance_cookie: self.instance_cookie,
        }
    }
}

impl Pop for ServerInfo {
    open spec fn pop_model(vs: Seq<ValueModel>) -> Option<(ServerInfoModel, Seq<ValueModel>)> {
        if vs.len() >= 8 && vs[0] is String && vs[1] is String && vs[2] is String && vs[3]
            is String && vs[4] is SampleSpec && vs[5] is String && vs[6] is String && vs[7]
            is U32 {
            Some(
                (
                    ServerInfoModel {
                        server_name: vs[0]->String_0,
                        server_version: vs[1]->String_0,
                        user_name: vs[2]->String_0,
                        host_name: vs[3]->String_0,
                        sample_spec: vs[4]->SampleSpec_0,
                        default_sink_name: vs[5]->String_0,
                        default_source_name: vs[6]->String_0,
                        instance_cookie: vs[7]->U32_0,
                    },
                    vs.skip(8),
                ),
            )
        } else {
            None
        }
    }

    fn pop(tag_struct: &mut TagStruct) -> (r: Result<Self, Error>) {
        let ghost orig = tag_struct@;
        let server_name = match tag_struct.pop_string() {
            Ok(v) => v,
            Err(e) => {
                proof {
                    if orig.len() == 0 {
                        assert(tag_struct@ == orig.skip(0));
                    } else {
                        assert(tag_struct@ =~= orig.skip(1));
                    }
                }
                return Err(e);
            },
        };
        proof {
            assert(tag_struct@ =~= orig.skip(1));
        }
        let server_version = match tag_struct.pop_string() {
            Ok(v) => v,
            Err(e) => {
                proof {
                    if orig.skip(1).len() == 0 {
                        assert(tag_struct@ == orig.skip(1));
                    } else {
                        assert(tag_struct@ =~= orig.skip(2));
                    }
                }
                return Err(e);
            },
        };
        proof {
            assert(tag_struct@ =~= orig.skip(2));
        }
        let user_name = match tag_struct.pop_string() {
            Ok(v) => v,
            Err(e) => {
                proof {
                    if orig.skip(2).len() == 0 {
                        assert(tag_struct@ == orig.skip(2));
                    } else {
                        assert(tag_struct@ =~= orig.skip(3));
                    }
                }
                return Err(e);
            },
        };
        proof {
            assert(tag_struct@ =~= orig.skip(3));
        }
        let host_name = match tag_struct.pop_string() {
            Ok(v) => v,
            Err(e) => {
                proof {
                    if orig.skip(3).len() == 0 {
                        assert(tag_struct@ == orig.skip(3));
                    } else {
                        assert(tag_struct@ =~= orig.skip(4));
                    }
                }
                return Err(e);
            },
        };
        proof {
            assert(tag_struct@ =~= orig.skip(4));
        }
        let sample_spec = match tag_struct.pop_sample_spec() {
            Ok(v) => v,
            Err(e) => {
                proof {
                    if orig.skip(4).len() == 0 {
                        assert(tag_struct@ == orig.skip(4));
                    } else {
                        assert(tag_struct@ =~= orig.skip(5));
                    }
                }
                return Err(e);
            },
        };
        proof {
            assert(tag_struct@ =~= orig.skip(5));
        }
        let default_sink_name = match tag_struct.pop_string() {
            Ok(v) => v,
            Err(e) => {
                proof {
                    if orig.skip(5).len() == 0 {
                        assert(tag_struct@ == orig.skip(5));
                    } else {
                        assert(tag_struct@ =~= orig.skip(6));
                    }
                }
                return Err(e);
            },
        };
        proof {
            assert(tag_struct@ =~= orig.skip(6));
        }
        let default_source_name = match tag_struct.pop_string() {
            Ok(v) => v,
            Err(e) => {
                proof {
                    if orig.skip(6).len() == 0 {
                        assert(tag_struct@ == orig.skip(6));
                    } else {
                        assert(tag_struct@ =~= orig.skip(7));
                    }
                }
                return Err(e);
            },
        };
        proof {
            assert(tag_struct@ =~= orig.skip(7));
        }
        let instance_cookie = match tag_struct.pop_u32() {
            Ok(v) => v,
            Err(e) => {
                proof {
                    if orig.skip(7).len() == 0 {
                        assert(tag_struct@ == orig.skip(7));
                    } else {
                        assert(tag_struct@ =~= orig.skip(8));
                    }
                }
                return Err(e);
            },
        };
        proof {
            assert(tag_struct@ =~= orig.skip(8));
        }
        Ok(
            ServerInfo {
                server_name,
                server_version,
                user_name,
                host_name,
                sample_spec,
                default_sink_name,
                default_source_name,
                instance_cookie,
            },
        )
    }
}

/// A request to create a playback stream on a sink.
#[derive(Debug, PartialEq)]
pub struct CreatePlaybackStream {
    pub name: std::string::String,
    pub sample_spec: SampleSpec,
    pub channel_map: ChannelMap,
    pub sink_ref: SinkRef,
    pub max_length: u32,
    pub corked: bool,
    pub t_length: u32,
    pub prebuf: u32,
    pub min_req: u32,
    pub sync_id: u32,
    pub volume: ChannelVolume,
}

impl Command for CreatePlaybackStream {
    open spec fn kind_spec() -> CommandKind {
        CommandKind::CreatePlaybackStream
    }

    fn kind() -> CommandKind {
        CommandKind::CreatePlaybackStream
    }
}

impl Put for CreatePlaybackStream {
    open spec fn put_model(self) -> Seq<ValueModel> {
        seq![
            ValueModel::String(Some(self.name@)),
            ValueModel::SampleSpec(self.sample_spec),
            ValueModel::ChannelMap(self.channel_map@),
            ValueModel::U32(self.sink_ref.index_value()),
            ValueModel::String(self.sink_ref.name_value()),
            ValueModel::U32(self.max_length),
            ValueModel::Bool(self.corked),
            ValueModel::U32(self.t_length),
            ValueModel::U32(self.prebuf),
            ValueModel::U32(self.min_req),
            ValueModel::U32(self.sync_id),
            ValueModel::ChannelVolume(self.volume@),
        ]
    }

    fn put(self, tag_struct: &mut TagStruct) {
        let ghost me = self;
        tag_struct.put_string(Some(self.name));
        tag_struct.put_sample_spec(self.sample_spec);
        tag_struct.put_channel_map(self.channel_map);
        let (sink_index, sink_name) = match self.sink_ref {
            SinkRef::Index(index) => (index, None),
            SinkRef::Name(name) => (INVALID_INDEX, Some(name)),
        };
        tag_struct.put_u32(sink_index);
        tag_struct.put_string(sink_name);
        tag_struct.put_u32(self.max_length);
        tag_struct.put_bool(self.corked);
        tag_struct.put_u32(self.t_length);
        tag_struct.put_u32(self.prebuf);
        tag_struct.put_u32(self.min_req);
        tag_struct.put_u32(self.sync_id);
        tag_struct.put_channel_volume(self.volume);
        proof {
            assert(tag_struct@ =~= old(tag_struct)@ + me.put_model());
        }
    }
}

/// The reply to `CreatePlaybackStream`: the stream's channel index, its sink
/// input, and how many bytes the server asks for first.
#[derive(Debug, Clone, Copy, PartialEq, Eq, Structural)]
pub struct CreatePlaybackStreamReply {
    pub index: u32,
    pub sink_input: u32,
    pub missing: u32,
}

impl View for CreatePlaybackStreamReply {
    type V = CreatePlaybackStreamReply;

    open spec fn view(&self) -> CreatePlaybackStreamReply {
        *self
    }
}

impl Pop for CreatePlaybackStreamReply {
    open spec fn pop_model(vs: Seq<ValueModel>) -> Option<
        (CreatePlaybackStreamReply, Seq<ValueModel>),
    > {
        if vs.len() >= 3 && vs[0] is U32 && vs[1] is U32 && vs[2] is U32 {
            Some(
                (
                    CreatePlaybackStreamReply {
                        index: vs[0]->U32_0,
                        sink_input: vs[1]->U32_0,
                        missing: vs[2]->U32_0,
                    },
                    vs.skip(3),
                ),
            )
        } else {
            None
        }
    }

    fn pop(tag_struct: &mut TagStruct) -> (r: Result<Self, Error>) {
        let ghost orig = tag_struct@;
        let index = match tag_struct.pop_u32() {
            Ok(v) => v,
            Err(e) => {
                proof {
                    if orig.len() == 0 {
                        assert(tag_struct@ == orig.skip(0));
                    } else {
                        assert(tag_struct@ =~= orig.skip(1));
                    }
                }
                return Err(e);
            },
        };
        proof {
            assert(tag_struct@ =~= orig.skip(1));
        }
        let sink_input = match tag_struct.pop_u32() {
            Ok(v) => v,
            Err(e) => {
                proof {
                    if orig.skip(1).len() == 0 {
                        assert(tag_struct@ == orig.skip(1));
                    } else {
                        assert(tag_struct@ =~= orig.skip(2));
                    }
                }
                return Err(e);
            },
        };
        proof {
            assert(tag_struct@ =~= orig.skip(2));
        }
        let missing = match tag_struct.pop_u32() {
            Ok(v) => v,
            Err(e) => {
                proof {
                    if orig.skip(2).len() == 0 {
                        assert(tag_struct@ == orig.skip(2));
                    } else {
                        assert(tag_struct@ =~= orig.skip(3));
                    }
                }
                return Err(e);
            },
        };
        proof {
            assert(tag_struct@ =~= orig.skip(3));
        }
        Ok(CreatePlaybackStreamReply { index, sink_input, missing })
    }
}

impl View for ErrorKind {
    type V = ErrorKind;

    open spec fn view(&self) -> ErrorKind {
        *self
    }
}

impl Pop for ErrorKind {
    open spec fn pop_model(vs: Seq<ValueModel>) -> Option<(ErrorKind, Seq<ValueModel>)> {
        if vs.len() >= 1 && vs[0] is U32 && ErrorKind::from_code(vs[0]->U32_0) is Some {
            Some((ErrorKind::from_code(vs[0]->U32_0)->Some_0, vs.skip(1)))
        } else {
            None
        }
    }

    fn pop(tag_struct: &mut TagStruct) -> (r: Result<Self, Error>) {
        let ghost orig = tag_struct@;
        let code = match tag_struct.pop_u32() {
            Ok(c) => c,
            Err(e) => {
                proof {
                    if orig.len() == 0 {
                        assert(tag_struct@ == orig.skip(0));
                    } else {
                        assert(tag_struct@ =~= orig.skip(1));
                    }
                }
                return Err(e);
            },
        };
        proof {
            assert(tag_struct@ =~= orig.skip(1));
        }
        match ErrorKind::from_u32(code) {
            Some(kind) => Ok(kind),
            None => Err(Error::Decode),
        }
    }
}

} // verus!
