//! Choosing a device from the list that the transport enumerates.

use crate::error::Error;
use vstd::prelude::*;
use vstd::string::StringSliceAdditionalSpecFns;
use vstd::utf8::encode_utf8_decode_utf8;

verus! {

/// What the transport reports of one attached HID device, as far as the
/// choice depends on it.
#[derive(Debug)]
pub struct DeviceEntry {
    pub vendor_id: u16,
    pub product_id: u16,
    /// The serial number, where the device has one.
    pub serial_number: Option<String>,
}

impl DeviceEntry {
    /// True when this device carries the serial number `sn`.
    pub open spec fn has_serial(self, sn: Seq<char>) -> bool {
        self.serial_number matches Some(own) && own@ == sn
    }

    /// True when this device has the given vendor and product id.
    pub open spec fn has_ids(self, vendor_id: u16, product_id: u16) -> bool {
        self.vendor_id == vendor_id && self.product_id == product_id
    }
}

/// The position of the first device in `devices` that carries the serial
/// number `sn`, if any does.
pub open spec fn first_with_serial(devices: Seq<DeviceEntry>, sn: Seq<char>) -> Option<int>
    decreases devices.len(),
{
    if devices.len() == 0 {
        None
    } else if devices[0].has_serial(sn) {
        Some(0)
    } else {
        match first_with_serial(devices.drop_first(), sn) {
            Some(i) => Some(i + 1),
            None => None,
        }
    }
}

/// The choice among `devices` for serial number `sn` and a family with the
/// given ids. The first device that carries the serial number decides: if
/// there is none the choice fails with `DeviceNotFound`; if it belongs to
/// another family the choice fails with `NotAVive`, whatever comes after it
/// in the list; otherwise its position is chosen.
pub open spec fn selection(
    devices: Seq<DeviceEntry>,
    sn: Seq<char>,
    vendor_id: u16,
    product_id: u16,
) -> Result<int, Error> {
    match first_with_serial(devices, sn) {
        None => Err(Error::DeviceNotFound),
        Some(i) => if devices[i].has_ids(vendor_id, product_id) {
            Ok(i)
        } else {
            Err(Error::NotAVive)
        },
    }
}

/// Tells whether two strings hold the same text.
fn same_text(a: &str, b: &str) -> (same: bool)
    ensures
        same == (a@ == b@),
{
    let x = a.as_bytes();
    let y = b.as_bytes();
    proof {
        encode_utf8_decode_utf8(a@);
        encode_utf8_decode_utf8(b@);
    }
    if x.len() != y.len() {
        return false;
    }
    let mut i: usize = 0;
    while i < x.len()
        invariant
            i <= x@.len(),
            x@.len() == y@.len(),
            x@ == a.spec_bytes(),
            y@ == b.spec_bytes(),
            forall|k: int| 0 <= k < i ==> x@[k] == y@[k],
        decreases x@.len() - i,
    {
        if x[i] != y[i] {
            return false;
        }
        i += 1;
    }
    assert(x@ =~= y@);
    true
}

/// Picks the device to open by serial number for a family with the given
/// vendor and product id, and returns its position in `devices`.
pub fn select_by_serial(devices: &[DeviceEntry], sn: &str, vendor_id: u16, product_id: u16) -> (r:
    Result<usize, Error>)
    ensures
        match selection(devices@, sn@, vendor_id, product_id) {
            Ok(i) => r == Ok::<usize, Error>(i as usize) && i < devices@.len(),
            Err(e) => r == Err::<usize, Error>(e),
        },
{
    let mut i: usize = 0;
    assert(devices@.skip(0) =~= devices@);
    while i < devices.len()
        invariant
            i <= devices@.len(),
            first_with_serial(devices@, sn@) == match first_with_serial(
                devices@.skip(i as int),
                sn@,
            ) {
                Some(k) => Some(k + i),
                None => None,
            },
        decreases devices@.len() - i,
    {
        let entry = &devices[i];
        let ghost rest = devices@.skip(i as int);
        assert(rest[0] == devices@[i as int]);
        assert(rest.drop_first() =~= devices@.skip(i + 1));
        let found = match &entry.serial_number {
            Some(own) => same_text(own.as_str(), sn),
            None => false,
        };
        if found {
            if entry.vendor_id != vendor_id || entry.product_id != product_id {
                return Err(Error::NotAVive);
            }
            return Ok(i);
        }
        i += 1;
    }
    Err(Error::DeviceNotFound)
}

/// What the first device with a serial number is: it carries the serial
/// number, and no device before it does; and where there is no first one, no
/// device carries it at all.
pub proof fn lemma_first_with_serial(devices: Seq<DeviceEntry>, sn: Seq<char>)
    ensures
        match first_with_serial(devices, sn) {
            Some(i) => 0 <= i < devices.len() && devices[i].has_serial(sn) && forall|k: int|
                0 <= k < i ==> !(#[trigger] devices[k]).has_serial(sn),
            None => forall|k: int| 0 <= k < devices.len() ==> !(#[trigger] devices[k]).has_serial(sn),
        },
    decreases devices.len(),
{
    if devices.len() > 0 && !devices[0].has_serial(sn) {
        let rest = devices.drop_first();
        lemma_first_with_serial(rest, sn);
        match first_with_serial(rest, sn) {
            Some(i) => {
                assert forall|k: int| 0 <= k < i + 1 implies !(#[trigger] devices[k]).has_serial(
                    sn,
                ) by {
                    if k > 0 {
                        assert(devices[k] == rest[k - 1]);
                    }
                }
            },
            None => {
                assert forall|k: int| 0 <= k < devices.len() implies !(
                #[trigger] devices[k]).has_serial(sn) by {
                    if k > 0 {
                        assert(devices[k] == rest[k - 1]);
                    }
                }
            },
        }
    }
}

/// A device that carries the requested serial number but belongs to
/// another family is never opened in silence: where the first device with
/// that serial number, at position `at`, has other ids than the family's,
/// the choice fails with `NotAVive`.
pub proof fn lemma_wrong_family_is_refused(
    devices: Seq<DeviceEntry>,
    sn: Seq<char>,
    vendor_id: u16,
    product_id: u16,
    at: int,
)
    requires
        0 <= at < devices.len(),
        devices[at].has_serial(sn),
        !devices[at].has_ids(vendor_id, product_id),
        forall|k: int| 0 <= k < at ==> !(#[trigger] devices[k]).has_serial(sn),
    ensures
        selection(devices, sn, vendor_id, product_id) == Err::<int, Error>(Error::NotAVive),
{
    lemma_first_with_serial(devices, sn);
}

/// Whatever is chosen is what was asked for: a chosen position lies in the
/// list, and the device there has the serial number and the family's ids.
/// A list in which no device has the serial number gives `DeviceNotFound`.
pub proof fn lemma_selection_is_sound(
    devices: Seq<DeviceEntry>,
    sn: Seq<char>,
    vendor_id: u16,
    product_id: u16,
)
    ensures
        selection(devices, sn, vendor_id, product_id) matches Ok(i) ==> 0 <= i < devices.len()
            && devices[i].has_serial(sn) && devices[i].has_ids(vendor_id, product_id),
        selection(devices, sn, vendor_id, product_id) == Err::<int, Error>(Error::DeviceNotFound)
            <==> forall|k: int| 0 <= k < devices.len() ==> !(#[trigger] devices[k]).has_serial(sn),
{
    lemma_first_with_serial(devices, sn);
}

} // verus!
