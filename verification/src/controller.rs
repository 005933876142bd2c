//! The controller-descriptor decoder: turns the raw controller-data payload
//! for one controller into a structured directory entry, walking a byte
//! cursor through the nested variable-length sections (metadata strings,
//! modes, zones, LEDs). Every count read from the wire is checked against
//! the remaining buffer before it is used, so a malformed or truncated
//! payload yields a data error and never an out-of-bounds read.

use vstd::prelude::*;

verus! {

use vstd::bytes::{spec_u16_from_le_bytes, spec_u32_from_le_bytes};
use vstd::slice::slice_index_get;

use crate::error::ProtocolError;
use crate::wire::{parse_string, read_u16_at, read_u32_at, spec_parse_text};

/// Free-form descriptive text reported by a controller. No invariant beyond
/// valid text encoding.
#[derive(Debug)]
pub struct ControllerMetaData {
    pub vendor: String,
    pub description: String,
    pub version: String,
    pub serial: String,
    pub location: String,
}

/// The mathematical value of [`ControllerMetaData`]: its five texts.
pub struct ControllerMetaDataView {
    pub vendor: Seq<char>,
    pub description: Seq<char>,
    pub version: Seq<char>,
    pub serial: Seq<char>,
    pub location: Seq<char>,
}

impl View for ControllerMetaData {
    type V = ControllerMetaDataView;

    open spec fn view(&self) -> ControllerMetaDataView {
        ControllerMetaDataView {
            vendor: self.vendor@,
            description: self.description@,
            version: self.version@,
            serial: self.serial@,
            location: self.location@,
        }
    }
}

/// One LED: a name and an opaque 32-bit hardware value.
#[derive(Debug)]
pub struct LedData {
    pub name: String,
    pub value: u32,
}

/// The mathematical value of [`LedData`].
pub struct LedDataView {
    pub name: Seq<char>,
    pub value: u32,
}

impl View for LedData {
    type V = LedDataView;

    open spec fn view(&self) -> LedDataView {
        LedDataView { name: self.name@, value: self.value }
    }
}

/// One directory entry: a controller as the client knows it. The id is
/// assigned by enumeration order, not by the server; the device type is an
/// opaque tag used only for filtering.
#[derive(Debug)]
pub struct ControllerData {
    pub id: u32,
    pub name: String,
    pub metadata: ControllerMetaData,
    pub device_type: u32,
    pub leds: Vec<LedData>,
}

/// The mathematical value of [`ControllerData`].
pub struct ControllerDataView {
    pub id: u32,
    pub name: Seq<char>,
    pub metadata: ControllerMetaDataView,
    pub device_type: u32,
    pub leds: Seq<LedDataView>,
}

impl View for ControllerData {
    type V = ControllerDataView;

    open spec fn view(&self) -> ControllerDataView {
        ControllerDataView {
            id: self.id,
            name: self.name@,
            metadata: self.metadata@,
            device_type: self.device_type,
            leds: self.leds@.map_values(|l: LedData| l@),
        }
    }
}

/// The cursor position after skipping `n` mode records starting at `pos`:
/// each is a length-prefixed name, a 36-byte fixed-layout region, a 2-byte
/// color count and that many 4-byte color entries. `None` when any read or
/// skip would pass the end of the buffer.
pub open spec fn spec_skip_modes(data: Seq<u8>, pos: int, n: int) -> Option<int>
    decreases n,
{
    if n <= 0 {
        Some(pos)
    } else {
        match spec_parse_text(data, pos) {
            Some((p, name)) => if p + 38 <= data.len() {
                let colors = spec_u16_from_le_bytes(data.subrange(p + 36, p + 38)) as int;
                if p + 38 + 4 * colors <= data.len() {
                    spec_skip_modes(data, p + 38 + 4 * colors, n - 1)
                } else {
                    None
                }
            } else {
                None
            },
            None => None,
        }
    }
}

/// The cursor position after skipping `n` zone records starting at `pos`:
/// each is a length-prefixed name and an 18-byte zone-type/size block whose
/// first byte is the zone-type tag; a matrix zone (tag 2) additionally
/// carries a 4-byte height, a 4-byte width and `height * width` 4-byte
/// matrix-to-LED mapping entries.
pub open spec fn spec_skip_zones(data: Seq<u8>, pos: int, n: int) -> Option<int>
    decreases n,
{
    if n <= 0 {
        Some(pos)
    } else {
        match spec_parse_text(data, pos) {
            Some((p, name)) => if p + 18 <= data.len() {
                if data[p] == 2 {
                    if p + 26 <= data.len() {
                        let h = spec_u32_from_le_bytes(data.subrange(p + 18, p + 22)) as int;
                        let w = spec_u32_from_le_bytes(data.subrange(p + 22, p + 26)) as int;
                        if p + 26 + 4 * h * w <= data.len() {
                            spec_skip_zones(data, p + 26 + 4 * h * w, n - 1)
                        } else {
                            None
                        }
                    } else {
                        None
                    }
                } else {
                    spec_skip_zones(data, p + 18, n - 1)
                }
            } else {
                None
            },
            None => None,
        }
    }
}

/// The `n` LED records starting at `pos` — each a length-prefixed name and
/// a 4-byte opaque value — together with the cursor position after them.
pub open spec fn spec_parse_leds(data: Seq<u8>, pos: int, n: int) -> Option<(int, Seq<LedDataView>)>
    decreases n,
{
    if n <= 0 {
        Some((pos, Seq::<LedDataView>::empty()))
    } else {
        match spec_parse_text(data, pos) {
            Some((p, name)) => if p + 4 <= data.len() {
                let value = spec_u32_from_le_bytes(data.subrange(p, p + 4));
                match spec_parse_leds(data, p + 4, n - 1) {
                    Some((end, rest)) => Some((end, seq![LedDataView { name, value }] + rest)),
                    None => None,
                }
            } else {
                None
            },
            None => None,
        }
    }
}

/// The complete descriptor decode: device type at offset 4, six
/// length-prefixed strings from offset 8 (name, vendor, description,
/// version, serial, location), the 2-byte mode count and 4-byte active-mode
/// index, the mode records, the 2-byte zone count and zone records, and the
/// 2-byte LED count followed by the LED records. `None` exactly when some
/// read would pass the end of the buffer or some text is not valid UTF-8.
pub open spec fn spec_unpack(id: u32, data: Seq<u8>) -> Option<ControllerDataView> {
    if data.len() < 8 {
        None
    } else {
        let device_type = spec_u32_from_le_bytes(data.subrange(4, 8));
        match spec_parse_text(data, 8) {
            None => None,
            Some((p1, name)) => match spec_parse_text(data, p1) {
                None => None,
                Some((p2, vendor)) => match spec_parse_text(data, p2) {
                    None => None,
                    Some((p3, description)) => match spec_parse_text(data, p3) {
                        None => None,
                        Some((p4, version)) => match spec_parse_text(data, p4) {
                            None => None,
                            Some((p5, serial)) => match spec_parse_text(data, p5) {
                                None => None,
                                Some((p6, location)) => if p6 + 6 <= data.len() {
                                    let num_modes = spec_u16_from_le_bytes(
                                        data.subrange(p6, p6 + 2),
                                    ) as int;
                                    match spec_skip_modes(data, p6 + 6, num_modes) {
                                        None => None,
                                        Some(pm) => if pm + 2 <= data.len() {
                                            let num_zones = spec_u16_from_le_bytes(
                                                data.subrange(pm, pm + 2),
                                            ) as int;
                                            match spec_skip_zones(data, pm + 2, num_zones) {
                                                None => None,
                                                Some(pz) => if pz + 2 <= data.len() {
                                                    let num_leds = spec_u16_from_le_bytes(
                                                        data.subrange(pz, pz + 2),
                                                    ) as int;
                                                    match spec_parse_leds(data, pz + 2, num_leds) {
                                                        None => None,
                                                        Some((pl, leds)) => Some(
                                                            ControllerDataView {
                                                                id,
                                                                name,
                                                                metadata: ControllerMetaDataView {
                                                                    vendor,
                                                                    description,
                                                                    version,
                                                                    serial,
                                                                    location,
                                                                },
                                                                device_type,
                                                                leds,
                                                            },
                                                        ),
                                                    }
                                                } else {
                                                    None
                                                },
                                            }
                                        } else {
                                            None
                                        },
                                    }
                                } else {
                                    None
                                },
                            },
                        },
                    },
                },
            },
        }
    }
}

/// The cursor never moves backwards while skipping mode records.
pub proof fn lemma_skip_modes_advances(data: Seq<u8>, pos: int, n: int)
    ensures
        spec_skip_modes(data, pos, n) matches Some(p) ==> pos <= p,
    decreases n,
{
    if n <= 0 {
    } else {
        match spec_parse_text(data, pos) {
            Some((p, _name)) => {
                if p + 38 <= data.len() {
                    let colors = spec_u16_from_le_bytes(data.subrange(p + 36, p + 38)) as int;
                    if p + 38 + 4 * colors <= data.len() {
                        lemma_skip_modes_advances(data, p + 38 + 4 * colors, n - 1);
                    }
                }
            },
            None => {},
        }
    }
}

/// The cursor never moves backwards while skipping zone records.
pub proof fn lemma_skip_zones_advances(data: Seq<u8>, pos: int, n: int)
    ensures
        spec_skip_zones(data, pos, n) matches Some(p) ==> pos <= p,
    decreases n,
{
    if n <= 0 {
    } else {
        match spec_parse_text(data, pos) {
            Some((p, _name)) => {
                if p + 18 <= data.len() {
                    if data[p] == 2 {
                        if p + 26 <= data.len() {
                            let h = spec_u32_from_le_bytes(data.subrange(p + 18, p + 22)) as int;
                            let w = spec_u32_from_le_bytes(data.subrange(p + 22, p + 26)) as int;
                            assert(0 <= 4 * h * w) by (nonlinear_arith)
                                requires
                                    0 <= h,
                                    0 <= w,
                            ;
                            if p + 26 + 4 * h * w <= data.len() {
                                lemma_skip_zones_advances(data, p + 26 + 4 * h * w, n - 1);
                            }
                        }
                    } else {
                        lemma_skip_zones_advances(data, p + 18, n - 1);
                    }
                }
            },
            None => {},
        }
    }
}

/// A payload shorter than the smallest well-formed descriptor — device
/// type, six empty strings, the mode header, a zero mode count, a zero
/// zone count and a zero LED count need 30 bytes — is always rejected.
pub proof fn lemma_truncated_payload_rejected(id: u32, data: Seq<u8>)
    requires
        data.len() < 30,
    ensures
        spec_unpack(id, data) is None,
{
    if data.len() >= 8 {
        if let Some((p1, _n1)) = spec_parse_text(data, 8) {
            if let Some((p2, _n2)) = spec_parse_text(data, p1) {
                if let Some((p3, _n3)) = spec_parse_text(data, p2) {
                    if let Some((p4, _n4)) = spec_parse_text(data, p3) {
                        if let Some((p5, _n5)) = spec_parse_text(data, p4) {
                            if let Some((p6, _n6)) = spec_parse_text(data, p5) {
                                assert(p6 >= 20);
                                if p6 + 6 <= data.len() {
                                    let num_modes = spec_u16_from_le_bytes(
                                        data.subrange(p6, p6 + 2),
                                    ) as int;
                                    lemma_skip_modes_advances(data, p6 + 6, num_modes);
                                    if let Some(pm) = spec_skip_modes(data, p6 + 6, num_modes) {
                                        if pm + 2 <= data.len() {
                                            let num_zones = spec_u16_from_le_bytes(
                                                data.subrange(pm, pm + 2),
                                            ) as int;
                                            lemma_skip_zones_advances(data, pm + 2, num_zones);
                                        }
                                    }
                                }
                            }
                        }
                    }
                }
            }
        }
    }
}

/// Skips `n` mode records, returning the cursor after them.
fn skip_modes(data: &[u8], start: usize, n: u16) -> (r: Result<usize, ProtocolError>)
    requires
        start <= data@.len(),
    ensures
        match r {
            Ok(p) => {
                &&& spec_skip_modes(data@, start as int, n as int) == Some(p as int)
                &&& start <= p <= data@.len()
            },
            Err(e) => {
                &&& spec_skip_modes(data@, start as int, n as int) is None
                &&& e == ProtocolError::MalformedResponse
            },
        },
{
    let mut pos = start;
    let mut i: u16 = 0;
    while i < n
        invariant
            i <= n,
            start <= pos <= data@.len(),
            spec_skip_modes(data@, pos as int, (n - i) as int) == spec_skip_modes(
                data@,
                start as int,
                n as int,
            ),
        decreases n - i,
    {
        let (p, _mode_name) = match parse_string(pos, data) {
            Ok(v) => v,
            Err(e) => {
                return Err(e);
            },
        };
        if data.len() - p < 38 {
            return Err(ProtocolError::MalformedResponse);
        }
        let num_colors = match read_u16_at(data, p + 36) {
            Some(v) => v,
            None => {
                proof {
                    assert(false);
                }
                return Err(ProtocolError::MalformedResponse);
            },
        };
        let skip: usize = 4 * (num_colors as usize);
        if data.len() - (p + 38) < skip {
            return Err(ProtocolError::MalformedResponse);
        }
        pos = p + 38 + skip;
        i = i + 1;
    }
    Ok(pos)
}

/// Skips `n` zone records, returning the cursor after them. The product
/// `height * width * 4` of a matrix zone is checked against the remaining
/// buffer in full precision before the skip.
fn skip_zones(data: &[u8], start: usize, n: u16) -> (r: Result<usize, ProtocolError>)
    requires
        start <= data@.len(),
    ensures
        match r {
            Ok(p) => {
                &&& spec_skip_zones(data@, start as int, n as int) == Some(p as int)
                &&& start <= p <= data@.len()
            },
            Err(e) => {
                &&& spec_skip_zones(data@, start as int, n as int) is None
                &&& e == ProtocolError::MalformedResponse
            },
        },
{
    let mut pos = start;
    let mut i: u16 = 0;
    while i < n
        invariant
            i <= n,
            start <= pos <= data@.len(),
            spec_skip_zones(data@, pos as int, (n - i) as int) == spec_skip_zones(
                data@,
                start as int,
                n as int,
            ),
        decreases n - i,
    {
        let (p, _zone_name) = match parse_string(pos, data) {
            Ok(v) => v,
            Err(e) => {
                return Err(e);
            },
        };
        if data.len() - p < 18 {
            return Err(ProtocolError::MalformedResponse);
        }
        let tag = *slice_index_get(data, p);
        if tag == 2 {
            if data.len() - p < 26 {
                return Err(ProtocolError::MalformedResponse);
            }
            let h = match read_u32_at(data, p + 18) {
                Some(v) => v,
                None => {
                    proof {
                        assert(false);
                    }
                    return Err(ProtocolError::MalformedResponse);
                },
            };
            let w = match read_u32_at(data, p + 22) {
                Some(v) => v,
                None => {
                    proof {
                        assert(false);
                    }
                    return Err(ProtocolError::MalformedResponse);
                },
            };
            proof {
                assert(0 <= (h as int) * (w as int) <= 0xffff_ffff * 0xffff_ffff)
                    by (nonlinear_arith)
                    requires
                        0 <= h as int <= 0xffff_ffff,
                        0 <= w as int <= 0xffff_ffff,
                ;
            }
            let hw: u64 = (h as u64) * (w as u64);
            let need: u128 = 4u128 * (hw as u128);
            proof {
                assert(4 * (h as int) * (w as int) == 4 * ((h as int) * (w as int)))
                    by (nonlinear_arith);
                assert(need as int == 4 * (h as int) * (w as int));
            }
            let rem: u128 = (data.len() - (p + 26)) as u128;
            if need > rem {
                return Err(ProtocolError::MalformedResponse);
            }
            pos = p + 26 + (need as usize);
        } else {
            pos = p + 18;
        }
        i = i + 1;
    }
    Ok(pos)
}

/// Reads `n` LED records, returning the cursor after them and the LEDs in
/// wire order.
fn parse_leds(data: &[u8], start: usize, n: u16) -> (r: Result<(usize, Vec<LedData>), ProtocolError>)
    requires
        start <= data@.len(),
    ensures
        match r {
            Ok((end, leds)) => {
                &&& spec_parse_leds(data@, start as int, n as int) == Some(
                    (end as int, leds@.map_values(|l: LedData| l@)),
                )
                &&& start <= end <= data@.len()
            },
            Err(e) => {
                &&& spec_parse_leds(data@, start as int, n as int) is None
                &&& e == ProtocolError::MalformedResponse
            },
        },
{
    let mut pos = start;
    let mut leds: Vec<LedData> = Vec::new();
    let mut i: u16 = 0;
    while i < n
        invariant
            i <= n,
            start <= pos <= data@.len(),
            match spec_parse_leds(data@, pos as int, (n - i) as int) {
                None => spec_parse_leds(data@, start as int, n as int) is None,
                Some((end, rest)) => spec_parse_leds(data@, start as int, n as int) == Some(
                    (end, leds@.map_values(|l: LedData| l@) + rest),
                ),
            },
        decreases n - i,
    {
        let ghost prefix = leds@.map_values(|l: LedData| l@);
        let (p, led_name) = match parse_string(pos, data) {
            Ok(v) => v,
            Err(e) => {
                return Err(e);
            },
        };
        if data.len() - p < 4 {
            return Err(ProtocolError::MalformedResponse);
        }
        let value = match read_u32_at(data, p) {
            Some(v) => v,
            None => {
                proof {
                    assert(false);
                }
                return Err(ProtocolError::MalformedResponse);
            },
        };
        let ghost new_led = LedDataView { name: led_name@, value };
        leds.push(LedData { name: led_name, value });
        pos = p + 4;
        i = i + 1;
        proof {
            assert(leds@.map_values(|l: LedData| l@) =~= prefix + seq![new_led]);
            if let Some((end, rest)) = spec_parse_leds(data@, pos as int, (n - i) as int) {
                assert(prefix + (seq![new_led] + rest) =~= (prefix + seq![new_led]) + rest);
            }
        }
    }
    proof {
        assert(leds@.map_values(|l: LedData| l@) + Seq::<LedDataView>::empty() =~= leds@.map_values(
            |l: LedData| l@,
        ));
    }
    Ok((pos, leds))
}

impl ControllerData {
    /// Decodes the controller-data payload the server returned for the
    /// controller enumerated at index `id`, exactly as [`spec_unpack`]
    /// describes it. Every failure — a truncated buffer, a count larger
    /// than the remaining bytes, invalid UTF-8 in a string — is reported
    /// as a malformed-response error.
    pub fn unpack(id: u32, data: &[u8]) -> (r: Result<Self, ProtocolError>)
        ensures
            match r {
                Ok(c) => spec_unpack(id, data@) == Some(c@),
                Err(e) => {
                    &&& spec_unpack(id, data@) is None
                    &&& e == ProtocolError::MalformedResponse
                },
            },
            data@.len() < 30 ==> r is Err,
    {
        proof {
            if data@.len() < 30 {
                lemma_truncated_payload_rejected(id, data@);
            }
        }
        if data.len() < 8 {
            return Err(ProtocolError::MalformedResponse);
        }
        let device_type = match read_u32_at(data, 4) {
            Some(v) => v,
            None => {
                proof {
                    assert(false);
                }
                return Err(ProtocolError::MalformedResponse);
            },
        };
        let (p1, name) = match parse_string(8, data) {
            Ok(v) => v,
            Err(e) => {
                return Err(e);
            },
        };
        let (p2, vendor) = match parse_string(p1, data) {
            Ok(v) => v,
            Err(e) => {
                return Err(e);
            },
        };
        let (p3, description) = match parse_string(p2, data) {
            Ok(v) => v,
            Err(e) => {
                return Err(e);
            },
        };
        let (p4, version) = match parse_string(p3, data) {
            Ok(v) => v,
            Err(e) => {
                return Err(e);
            },
        };
        let (p5, serial) = match parse_string(p4, data) {
            Ok(v) => v,
            Err(e) => {
                return Err(e);
            },
        };
        let (p6, location) = match parse_string(p5, data) {
            Ok(v) => v,
            Err(e) => {
                return Err(e);
            },
        };
        if data.len() - p6 < 6 {
            return Err(ProtocolError::MalformedResponse);
        }
        let num_modes = match read_u16_at(data, p6) {
            Some(v) => v,
            None => {
                proof {
                    assert(false);
                }
                return Err(ProtocolError::MalformedResponse);
            },
        };
        let pm = match skip_modes(data, p6 + 6, num_modes) {
            Ok(p) => p,
            Err(e) => {
                return Err(e);
            },
        };
        if data.len() - pm < 2 {
            return Err(ProtocolError::MalformedResponse);
        }
        let num_zones = match read_u16_at(data, pm) {
            Some(v) => v,
            None => {
                proof {
                    assert(false);
                }
                return Err(ProtocolError::MalformedResponse);
            },
        };
        let pz = match skip_zones(data, pm + 2, num_zones) {
            Ok(p) => p,
            Err(e) => {
                return Err(e);
            },
        };
        if data.len() - pz < 2 {
            return Err(ProtocolError::MalformedResponse);
        }
        let num_leds = match read_u16_at(data, pz) {
            Some(v) => v,
            None => {
                proof {
                    assert(false);
                }
                return Err(ProtocolError::MalformedResponse);
            },
        };
        let (_end, leds) = match parse_leds(data, pz + 2, num_leds) {
            Ok(v) => v,
            Err(e) => {
                return Err(e);
            },
        };
        Ok(
            ControllerData {
                id,
                name,
                metadata: ControllerMetaData { vendor, description, version, serial, location },
                device_type,
                leds,
            },
        )
    }
}

} // verus!
