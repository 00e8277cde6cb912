//! Audio endpoints found in the MMDevices registry tree.
use vstd::prelude::*;

verus! {

/// One active audio endpoint with its APO slots and format.
pub struct Endpoint {
    pub index: usize,
    pub guid: String,
    pub name: String,
    pub kind: EndpointKind,
    pub sfx: Option<String>,
    pub mfx: Option<String>,
    pub efx: Option<String>,
    pub sfx_is_system: bool,
    pub mfx_is_system: bool,
    pub efx_is_system: bool,
    pub sample_rate: Option<u32>,
    pub channels: Option<u16>,
    pub bit_depth: Option<u16>,
    pub channel_mask: Option<u32>,
    pub endpoint_flags: Option<u32>,
    pub disable_enhancements: Option<u32>,
}

/// The mathematical value of an [`Endpoint`]: its strings as character sequences.
pub struct EndpointView {
    pub index: usize,
    pub guid: Seq<char>,
    pub name: Seq<char>,
    pub kind: EndpointKind,
    pub sfx: Option<Seq<char>>,
    pub mfx: Option<Seq<char>>,
    pub efx: Option<Seq<char>>,
    pub sfx_is_system: bool,
    pub mfx_is_system: bool,
    pub efx_is_system: bool,
    pub sample_rate: Option<u32>,
    pub channels: Option<u16>,
    pub bit_depth: Option<u16>,
    pub channel_mask: Option<u32>,
    pub endpoint_flags: Option<u32>,
    pub disable_enhancements: Option<u32>,
}

pub open spec fn opt_str_view(o: Option<String>) -> Option<Seq<char>> {
    match o {
        Some(s) => Some(s@),
        None => None,
    }
}

impl View for Endpoint {
    type V = EndpointView;

    open spec fn view(&self) -> EndpointView {
        EndpointView {
            index: self.index,
            guid: self.guid@,
            name: self.name@,
            kind: self.kind,
            sfx: opt_str_view(self.sfx),
            mfx: opt_str_view(self.mfx),
            efx: opt_str_view(self.efx),
            sfx_is_system: self.sfx_is_system,
            mfx_is_system: self.mfx_is_system,
            efx_is_system: self.efx_is_system,
            sample_rate: self.sample_rate,
            channels: self.channels,
            bit_depth: self.bit_depth,
            channel_mask: self.channel_mask,
            endpoint_flags: self.endpoint_flags,
            disable_enhancements: self.disable_enhancements,
        }
    }
}

/// The views of a list of endpoints.
pub open spec fn endpoint_views(v: Seq<Endpoint>) -> Seq<EndpointView> {
    v.map_values(|e: Endpoint| e@)
}

#[derive(Clone, Copy, PartialEq, Eq, Structural, Debug)]
pub enum EndpointKind {
    Playback,
    Capture,
}

impl EndpointKind {
    /// The MMDevices sub-key for this kind.
    pub fn reg_path(&self) -> (r: &'static str)
        ensures
            r@ == (match self {
                EndpointKind::Playback => "Render"@,
                EndpointKind::Capture => "Capture"@,
            }),
    {
        match self {
            EndpointKind::Playback => "Render",
            EndpointKind::Capture => "Capture",
        }
    }

    /// The name shown for this kind.
    pub fn display_name(&self) -> (r: &'static str)
        ensures
            r@ == (match self {
                EndpointKind::Playback => "Playback"@,
                EndpointKind::Capture => "Capture"@,
            }),
    {
        match self {
            EndpointKind::Playback => "Playback",
            EndpointKind::Capture => "Capture",
        }
    }
}

} // verus!
