//! Choosing a compute device: decoding the bus id a device reports, and
//! searching an enumeration of platforms and their devices.
//!
//! The enumeration itself is done by the caller; each entry holds what the
//! corresponding query returned.

use vstd::prelude::*;

verus! {

/// How a device is chosen.
#[derive(Debug, Clone, Copy, PartialEq, Eq, Structural)]
pub enum Selector {
    /// The device on this bus.
    BusId(u32),
    /// The first device of the first platform that has one.
    Default,
}

#[derive(Debug, Clone, Copy, PartialEq, Eq, Structural)]
pub enum ClError {
    DeviceNotFound,
    PlatformNotFound,
    BusIdNotAvailable,
    CannotCreateContext,
    CannotCreateQueue,
}

pub type ClResult<T> = Result<T, ClError>;

/// Per platform, the device listing query's outcome; per device, the bus
/// id query's outcome.
pub type PlatformDevices = ClResult<Vec<ClResult<u32>>>;

/// Status a successful device query reports.
pub const CL_SUCCESS: i32 = 0;

/// The little-endian value of four bytes.
pub open spec fn le_u32(b: Seq<u8>) -> int {
    b[0] as int + b[1] as int * 256 + b[2] as int * 65536 + b[3] as int * 16777216
}

/// The value of the first four bytes of `inp`, least significant first.
pub fn to_u32(inp: &[u8]) -> (r: u32)
    requires
        inp@.len() >= 4,
    ensures
        r == le_u32(inp@),
{
    (inp[0] as u32) + (inp[1] as u32) * 256 + (inp[2] as u32) * 65536 + (inp[3] as u32) * 16777216
}

/// The bus id of a device from its info query: the query's status, the
/// length it reported, and the bytes it wrote.
pub fn bus_id_from_info(status: i32, len: u64, bytes: &[u8]) -> (r: ClResult<u32>)
    ensures
        r is Ok <==> (status == CL_SUCCESS && len == 4 && bytes@.len() >= 4),
        r is Err ==> r == Err::<u32, ClError>(ClError::BusIdNotAvailable),
        r matches Ok(b) ==> b == le_u32(bytes@),
{
    if status == CL_SUCCESS && len == 4 && bytes.len() >= 4 {
        Ok(to_u32(bytes))
    } else {
        Err(ClError::BusIdNotAvailable)
    }
}

/// The first device of the platforms from index `i` on, scanning in order
/// and stopping at the first listing that failed.
pub open spec fn first_device_from(ps: Seq<PlatformDevices>, i: int) -> ClResult<(usize, usize)>
    decreases ps.len() - i,
{
    if i < 0 || i >= ps.len() {
        Err(ClError::DeviceNotFound)
    } else {
        match ps[i] {
            Err(e) => Err(e),
            Ok(devs) => if devs@.len() > 0 {
                Ok((i as usize, 0usize))
            } else {
                first_device_from(ps, i + 1)
            },
        }
    }
}

/// Within one platform's devices from index `j` on: the device on bus
/// `bus`, a failed bus id query met before it, or `None` where neither is
/// there.
pub open spec fn find_in_devices(devs: Seq<ClResult<u32>>, j: int, bus: u32) -> Option<ClResult<usize>>
    decreases devs.len() - j,
{
    if j < 0 || j >= devs.len() {
        None
    } else {
        match devs[j] {
            Err(e) => Some(Err(e)),
            Ok(b) => if b == bus {
                Some(Ok(j as usize))
            } else {
                find_in_devices(devs, j + 1, bus)
            },
        }
    }
}

/// The device on bus `bus` among the platforms from index `i` on, scanning
/// in order and stopping at the first query that failed.
pub open spec fn find_from(ps: Seq<PlatformDevices>, i: int, bus: u32) -> ClResult<(usize, usize)>
    decreases ps.len() - i,
{
    if i < 0 || i >= ps.len() {
        Err(ClError::DeviceNotFound)
    } else {
        match ps[i] {
            Err(e) => Err(e),
            Ok(devs) => match find_in_devices(devs@, 0, bus) {
                Some(Ok(j)) => Ok((i as usize, j)),
                Some(Err(e)) => Err(e),
                None => find_from(ps, i + 1, bus),
            },
        }
    }
}

/// Platform and device index of the first device.
pub fn first_device(platforms: &Vec<PlatformDevices>) -> (r: ClResult<(usize, usize)>)
    ensures
        r == first_device_from(platforms@, 0),
{
    let mut i: usize = 0;
    while i < platforms.len()
        invariant
            i <= platforms.len(),
            first_device_from(platforms@, 0) == first_device_from(platforms@, i as int),
        decreases platforms.len() - i,
    {
        match &platforms[i] {
            Err(e) => {
                return Err(*e);
            },
            Ok(devs) => {
                if devs.len() > 0 {
                    return Ok((i, 0));
                }
            },
        }
        i += 1;
    }
    Err(ClError::DeviceNotFound)
}

fn find_in_platform(devs: &Vec<ClResult<u32>>, bus: u32) -> (r: Option<ClResult<usize>>)
    ensures
        r == find_in_devices(devs@, 0, bus),
{
    let mut j: usize = 0;
    while j < devs.len()
        invariant
            j <= devs.len(),
            find_in_devices(devs@, 0, bus) == find_in_devices(devs@, j as int, bus),
        decreases devs.len() - j,
    {
        match devs[j] {
            Err(e) => {
                return Some(Err(e));
            },
            Ok(b) => {
                if b == bus {
                    return Some(Ok(j));
                }
            },
        }
        j += 1;
    }
    None
}

/// Platform and device index of the device on bus `bus_id`.
pub fn find_device_by_bus_id(platforms: &Vec<PlatformDevices>, bus_id: u32) -> (r: ClResult<
    (usize, usize),
>)
    ensures
        r == find_from(platforms@, 0, bus_id),
{
    let mut i: usize = 0;
    while i < platforms.len()
        invariant
            i <= platforms.len(),
            find_from(platforms@, 0, bus_id) == find_from(platforms@, i as int, bus_id),
        decreases platforms.len() - i,
    {
        match &platforms[i] {
            Err(e) => {
                return Err(*e);
            },
            Ok(devs) => {
                match find_in_platform(devs, bus_id) {
                    Some(Ok(j)) => {
                        return Ok((i, j));
                    },
                    Some(Err(e)) => {
                        return Err(e);
                    },
                    None => {},
                }
            },
        }
        i += 1;
    }
    Err(ClError::DeviceNotFound)
}

/// What a selector resolves to, given the platform enumeration.
pub open spec fn selected_bus_id(sel: Selector, platforms: ClResult<Seq<PlatformDevices>>) -> ClResult<u32> {
    match sel {
        Selector::BusId(b) => Ok(b),
        Selector::Default => match platforms {
            Err(e) => Err(e),
            Ok(ps) => match first_device_from(ps, 0) {
                Err(e) => Err(e),
                Ok((p, d)) => ps[p as int]->Ok_0@[d as int],
            },
        },
    }
}

pub open spec fn platforms_view(p: ClResult<Vec<PlatformDevices>>) -> ClResult<Seq<PlatformDevices>> {
    match p {
        Ok(v) => Ok(v@),
        Err(e) => Err(e),
    }
}

pub proof fn lemma_first_device_in_range(ps: Seq<PlatformDevices>, i: int)
    requires
        ps.len() <= usize::MAX,
    ensures
        first_device_from(ps, i) matches Ok((p, d)) ==> 0 <= p < ps.len() && ps[p as int] is Ok
            && d < ps[p as int]->Ok_0@.len(),
    decreases ps.len() - i,
{
    if 0 <= i < ps.len() {
        lemma_first_device_in_range(ps, i + 1);
    }
}

impl Selector {
    /// The bus id this selector names: its own, or that of the first
    /// device of `platforms`, the outcome of enumerating the platforms.
    pub fn get_bus_id(&self, platforms: &ClResult<Vec<PlatformDevices>>) -> (r: ClResult<u32>)
        ensures
            r == selected_bus_id(*self, platforms_view(*platforms)),
    {
        match self {
            Selector::BusId(bus_id) => Ok(*bus_id),
            Selector::Default => {
                let ps = match platforms {
                    Ok(ps) => ps,
                    Err(e) => {
                        return Err(*e);
                    },
                };
                proof {
                    assert(ps@.len() == ps.len());
                    lemma_first_device_in_range(ps@, 0);
                }
                match first_device(ps) {
                    Err(e) => Err(e),
                    Ok((p, d)) => match &ps[p] {
                        Ok(devs) => devs[d],
                        Err(e) => Err(*e),
                    },
                }
            },
        }
    }
}

} // verus!
