//! Which inertial board is attached, judged from the addresses that answer on the I2C bus.
use vstd::prelude::*;

verus! {

/// The inertial boards the pipeline knows.
#[derive(Clone, Copy, Debug, PartialEq, Eq)]
pub enum ImuType {
    TwoHatType,
    SenseHatType,
}

/// Bus address of the accelerometer and gyroscope of the Sense HAT board.
pub const SENSE_HAT_ADDR: u8 = 0x6a;

/// Bus address of the pressure sensor of the two-board variant.
pub const TWO_HAT_ADDR: u8 = 0x76;

/// The board whose known address answered: the Sense HAT when its address is
/// present, else the two-board variant when its address is, else none.
pub open spec fn board_for(addrs: Seq<u8>) -> Option<ImuType> {
    if addrs.contains(SENSE_HAT_ADDR) {
        Some(ImuType::SenseHatType)
    } else if addrs.contains(TWO_HAT_ADDR) {
        Some(ImuType::TwoHatType)
    } else {
        None
    }
}

fn has_addr(addrs: &Vec<u8>, a: u8) -> (r: bool)
    ensures
        r == addrs@.contains(a),
{
    let mut i: usize = 0;
    while i < addrs.len()
        invariant
            i <= addrs@.len(),
            forall|k: int| 0 <= k < i ==> addrs@[k] != a,
        decreases addrs@.len() - i,
    {
        if addrs[i] == a {
            assert(addrs@[i as int] == a);
            return true;
        }
        i += 1;
    }
    false
}

/// Picks the attached board from the addresses a bus scan found.
pub fn which_imu(addrs: &Vec<u8>) -> (r: Option<ImuType>)
    ensures
        r == board_for(addrs@),
{
    if has_addr(addrs, SENSE_HAT_ADDR) {
        Some(ImuType::SenseHatType)
    } else if has_addr(addrs, TWO_HAT_ADDR) {
        Some(ImuType::TwoHatType)
    } else {
        None
    }
}

/// `out[i]` is the first `=` of `out`, and `out[e]` ends the text that follows
/// it: the first later `=` or `'`, or the end of `out`.
pub open spec fn temp_field_bounds(out: Seq<u8>, i: int, e: int) -> bool {
    &&& 0 <= i < e <= out.len()
    &&& out[i] == 0x3d
    &&& forall|j: int| 0 <= j < i ==> #[trigger] out[j] != 0x3d
    &&& forall|j: int| i < j < e ==> #[trigger] out[j] != 0x3d && out[j] != 0x27
    &&& (e == out.len() || out[e] == 0x3d || out[e] == 0x27)
}

/// The number in a temperature report such as `temp=43.2'C`: the bytes after
/// the first `=` up to the next `'` (or `=`, or the end). `None` when the report
/// has no `=`.
pub fn cpu_temp_field(out: &Vec<u8>) -> (r: Option<Vec<u8>>)
    ensures
        r.is_some() <==> out@.contains(0x3d),
        r.is_some() ==> exists|i: int, e: int|
            temp_field_bounds(out@, i, e) && r.unwrap()@ == out@.subrange(i + 1, e),
{
    let mut i: usize = 0;
    while i < out.len()
        invariant
            i <= out@.len(),
            forall|j: int| 0 <= j < i ==> #[trigger] out@[j] != 0x3d,
        ensures
            i <= out@.len(),
            forall|j: int| 0 <= j < i ==> #[trigger] out@[j] != 0x3d,
            i < out@.len() ==> out@[i as int] == 0x3d,
        decreases out@.len() - i,
    {
        if out[i] == 0x3d {
            break;
        }
        i += 1;
    }
    if i == out.len() {
        assert(!out@.contains(0x3d));
        return None;
    }
    let mut field: Vec<u8> = Vec::new();
    let mut e: usize = i + 1;
    while e < out.len() && out[e] != 0x3d && out[e] != 0x27
        invariant
            i < e <= out@.len(),
            out@[i as int] == 0x3d,
            forall|j: int| i < j < e ==> #[trigger] out@[j] != 0x3d && out@[j] != 0x27,
            field@ == out@.subrange(i + 1, e as int),
        decreases out@.len() - e,
    {
        field.push(out[e]);
        proof {
            assert(field@ =~= out@.subrange(i + 1, e + 1));
        }
        e += 1;
    }
    assert(temp_field_bounds(out@, i as int, e as int));
    Some(field)
}

} // verus!
