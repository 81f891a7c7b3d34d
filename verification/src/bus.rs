//! Removable mass-storage classification of a device instance id, through the
//! `peripheral_core::Bus` classifier.
use vstd::prelude::*;
use crate::text::{ascii_upper, ascii_uppercase, chars_of, is_whitespace, trim_end, trim_start, trimmed};

verus! {

/// The physical/logical bus a peripheral attached through: the variants of
/// `peripheral_core::Bus`, one for one.
#[derive(Debug, Clone, Copy, PartialEq, Eq, Hash, Structural)]
pub enum BusKind {
    Usb,
    Mtp,
    FireWire,
    Thunderbolt,
    Pcie,
    Esata,
    SdMmc,
    Bluetooth,
    ExpressCard,
    ScsiSas,
    Nvme,
    Unknown,
}

/// The bus an enumerator token names: the token is trimmed of whitespace,
/// ASCII-uppercased, and looked up in the table of known enumerators; anything
/// else (the empty token included) is `Unknown`.
pub open spec fn enumerator_bus(enumerator: Seq<char>) -> BusKind {
    let e = ascii_uppercase(trimmed(enumerator));
    if e == "USBSTOR"@ || e == "USB"@ {
        BusKind::Usb
    } else if e == "1394"@ {
        BusKind::FireWire
    } else if e == "THUNDERBOLT"@ {
        BusKind::Thunderbolt
    } else if e == "PCI"@ || e == "PCIE"@ {
        BusKind::Pcie
    } else if e == "SCSI"@ || e == "SAS"@ {
        BusKind::ScsiSas
    } else if e == "NVME"@ {
        BusKind::Nvme
    } else if e == "SD"@ || e == "MMC"@ || e == "SDBUS"@ {
        BusKind::SdMmc
    } else if e == "ESATA"@ {
        BusKind::Esata
    } else if e == "BTHENUM"@ || e == "BTHLE"@ || e == "BLUETOOTH"@ {
        BusKind::Bluetooth
    } else if e == "EXPRESSCARD"@ {
        BusKind::ExpressCard
    } else if e == "WPDBUSENUMROOT"@ || e == "MTP"@ {
        BusKind::Mtp
    } else {
        BusKind::Unknown
    }
}

/// The removable mass-storage transports: USB, eSATA, SD/MMC, SCSI/SAS and NVMe.
pub open spec fn is_mass_storage_bus(bus: BusKind) -> bool {
    bus is Usb || bus is Esata || bus is SdMmc || bus is ScsiSas || bus is Nvme
}

/// Classifies an enumerator token with `peripheral_core::Bus::from_enumerator`.
///
/// Claimed of the outside function (its source is a trim, an ASCII uppercase and a
/// fixed table of enumerator names): the bus is exactly [`enumerator_bus`].
#[verifier::external_body]
fn bus_from_enumerator(enumerator: &str) -> (bus: BusKind)
    ensures
        bus == enumerator_bus(enumerator@),
{
    match peripheral_core::Bus::from_enumerator(enumerator) {
        peripheral_core::Bus::Usb => BusKind::Usb,
        peripheral_core::Bus::Mtp => BusKind::Mtp,
        peripheral_core::Bus::FireWire => BusKind::FireWire,
        peripheral_core::Bus::Thunderbolt => BusKind::Thunderbolt,
        peripheral_core::Bus::Pcie => BusKind::Pcie,
        peripheral_core::Bus::Esata => BusKind::Esata,
        peripheral_core::Bus::SdMmc => BusKind::SdMmc,
        peripheral_core::Bus::Bluetooth => BusKind::Bluetooth,
        peripheral_core::Bus::ExpressCard => BusKind::ExpressCard,
        peripheral_core::Bus::ScsiSas => BusKind::ScsiSas,
        peripheral_core::Bus::Nvme => BusKind::Nvme,
        peripheral_core::Bus::Unknown => BusKind::Unknown,
    }
}

/// Asks `peripheral_core::Bus::is_mass_storage` whether a bus is a removable
/// mass-storage transport.
///
/// Claimed of the outside function (its source is a single `matches!` over the
/// variants): the answer is exactly [`is_mass_storage_bus`].
#[verifier::external_body]
fn bus_is_mass_storage(bus: BusKind) -> (r: bool)
    ensures
        r == is_mass_storage_bus(bus),
{
    match bus {
        BusKind::Usb => peripheral_core::Bus::Usb,
        BusKind::Mtp => peripheral_core::Bus::Mtp,
        BusKind::FireWire => peripheral_core::Bus::FireWire,
        BusKind::Thunderbolt => peripheral_core::Bus::Thunderbolt,
        BusKind::Pcie => peripheral_core::Bus::Pcie,
        BusKind::Esata => peripheral_core::Bus::Esata,
        BusKind::SdMmc => peripheral_core::Bus::SdMmc,
        BusKind::Bluetooth => peripheral_core::Bus::Bluetooth,
        BusKind::ExpressCard => peripheral_core::Bus::ExpressCard,
        BusKind::ScsiSas => peripheral_core::Bus::ScsiSas,
        BusKind::Nvme => peripheral_core::Bus::Nvme,
        BusKind::Unknown => peripheral_core::Bus::Unknown,
    }.is_mass_storage()
}

/// The enumerator token of a device instance id: everything before the first
/// backslash (the whole id when it has none).
pub open spec fn enumerator_token(instance_id: Seq<char>) -> Seq<char>
    decreases instance_id.len(),
{
    if instance_id.len() == 0 || instance_id[0] == '\\' {
        Seq::empty()
    } else {
        seq![instance_id[0]] + enumerator_token(instance_id.drop_first())
    }
}

/// The instance id's enumerator names a removable mass-storage bus.
pub open spec fn mass_storage_id(instance_id: Seq<char>) -> bool {
    is_mass_storage_bus(enumerator_bus(enumerator_token(instance_id)))
}

proof fn lemma_enumerator_token(s: Seq<char>, k: int)
    requires
        0 <= k <= s.len(),
        forall|j: int| 0 <= j < k ==> #[trigger] s[j] != '\\',
        k == s.len() || s[k] == '\\',
    ensures
        enumerator_token(s) == s.subrange(0, k),
    decreases k,
{
    if k == 0 {
        assert(s.subrange(0, 0) =~= Seq::<char>::empty());
    } else {
        let t = s.drop_first();
        assert forall|j: int| 0 <= j < k - 1 implies #[trigger] t[j] != '\\' by {
            assert(t[j] == s[j + 1]);
        }
        if k - 1 < t.len() {
            assert(t[k - 1] == s[k]);
        }
        lemma_enumerator_token(t, k - 1);
        assert(seq![s[0]] + t.subrange(0, k - 1) =~= s.subrange(0, k));
    }
}

/// Is this device instance id a removable mass-storage transport?
///
/// Classifies the leading enumerator token (the part before the first `\`) with the
/// published `peripheral_core::Bus` classifier. A bare id with no separator is
/// treated as its own enumerator.
pub fn is_mass_storage_id(instance_id: &str) -> (r: bool)
    ensures
        r == mass_storage_id(instance_id@),
{
    let s = chars_of(instance_id);
    let n = s.len();
    let mut k: usize = 0;
    while k < n && s[k] != '\\'
        invariant
            k <= n == s@.len(),
            forall|j: int| 0 <= j < k ==> #[trigger] s@[j] != '\\',
        decreases n - k,
    {
        k = k + 1;
    }
    proof {
        lemma_enumerator_token(s@, k as int);
    }
    let enumerator = instance_id.substring_char(0, k);
    bus_is_mass_storage(bus_from_enumerator(enumerator))
}


proof fn lemma_token_before_backslash(e: Seq<char>, rest: Seq<char>)
    requires
        forall|i: int| 0 <= i < e.len() ==> #[trigger] e[i] != '\\',
    ensures
        enumerator_token(e + seq!['\\'] + rest) == e,
        enumerator_token(e) == e,
    decreases e.len(),
{
    if e.len() == 0 {
        assert((e + seq!['\\'] + rest)[0] == '\\');
        assert(enumerator_token(e) =~= e);
    } else {
        let t = e.drop_first();
        assert forall|i: int| 0 <= i < t.len() implies #[trigger] t[i] != '\\' by {
            assert(t[i] == e[i + 1]);
        }
        lemma_token_before_backslash(t, rest);
        assert((e + seq!['\\'] + rest).drop_first() =~= t + seq!['\\'] + rest);
        assert(seq![e[0]] + t =~= e);
    }
}

proof fn lemma_plain_enumerator(e: Seq<char>)
    requires
        e.len() > 0,
        forall|i: int|
            0 <= i < e.len() ==> (0x41 <= (#[trigger] e[i]) as u32 <= 0x5a || 0x30 <= (
            e[i] as u32) <= 0x39),
    ensures
        ascii_uppercase(trimmed(e)) == e,
{
    assert(!is_whitespace(e[0]));
    assert(trim_start(e) == e);
    assert(!is_whitespace(e.last()));
    assert(trim_end(e) == e);
    assert(ascii_uppercase(e) =~= e);
}

proof fn lemma_enumerator_id(e: Seq<char>, rest: Seq<char>)
    requires
        e.len() > 0,
        forall|i: int|
            0 <= i < e.len() ==> (0x41 <= (#[trigger] e[i]) as u32 <= 0x5a || 0x30 <= (
            e[i] as u32) <= 0x39),
    ensures
        mass_storage_id(e + seq!['\\'] + rest) == is_mass_storage_bus(enumerator_bus(e)),
        mass_storage_id(e) == is_mass_storage_bus(enumerator_bus(e)),
{
    assert forall|i: int| 0 <= i < e.len() implies #[trigger] e[i] != '\\' by {
        assert(e[i] as u32 != 0x5c);
    }
    lemma_token_before_backslash(e, rest);
    lemma_plain_enumerator(e);
}

/// The mass-storage enumerators: an instance id whose enumerator (the part before
/// the first backslash, or the whole id) is `USBSTOR`, `USB`, `SD`, `MMC`, `SDBUS`,
/// `SCSI`, `SAS`, `NVME` or `ESATA` names a removable mass-storage bus, whatever
/// follows; one whose enumerator is `BTHENUM`, `BTHLE`, `1394`, `THUNDERBOLT`,
/// `PCI`, `WPDBUSENUMROOT` or `HID` does not.
pub proof fn mass_storage_enumerators(rest: Seq<char>)
    ensures
        mass_storage_id("USBSTOR"@ + seq!['\\'] + rest),
        mass_storage_id("USBSTOR"@),
        mass_storage_id("USB"@ + seq!['\\'] + rest),
        mass_storage_id("USB"@),
        mass_storage_id("SD"@ + seq!['\\'] + rest),
        mass_storage_id("MMC"@ + seq!['\\'] + rest),
        mass_storage_id("SDBUS"@ + seq!['\\'] + rest),
        mass_storage_id("SCSI"@ + seq!['\\'] + rest),
        mass_storage_id("SAS"@ + seq!['\\'] + rest),
        mass_storage_id("NVME"@ + seq!['\\'] + rest),
        mass_storage_id("ESATA"@ + seq!['\\'] + rest),
        !mass_storage_id("BTHENUM"@ + seq!['\\'] + rest),
        !mass_storage_id("BTHLE"@ + seq!['\\'] + rest),
        !mass_storage_id("1394"@ + seq!['\\'] + rest),
        !mass_storage_id("THUNDERBOLT"@ + seq!['\\'] + rest),
        !mass_storage_id("PCI"@ + seq!['\\'] + rest),
        !mass_storage_id("WPDBUSENUMROOT"@ + seq!['\\'] + rest),
        !mass_storage_id("HID"@ + seq!['\\'] + rest),
{
    reveal_strlit("USBSTOR");
    reveal_strlit("USB");
    reveal_strlit("1394");
    reveal_strlit("THUNDERBOLT");
    reveal_strlit("PCI");
    reveal_strlit("PCIE");
    reveal_strlit("SCSI");
    reveal_strlit("SAS");
    reveal_strlit("NVME");
    reveal_strlit("SD");
    reveal_strlit("MMC");
    reveal_strlit("SDBUS");
    reveal_strlit("ESATA");
    reveal_strlit("BTHENUM");
    reveal_strlit("BTHLE");
    reveal_strlit("BLUETOOTH");
    reveal_strlit("EXPRESSCARD");
    reveal_strlit("WPDBUSENUMROOT");
    reveal_strlit("MTP");
    reveal_strlit("HID");
    lemma_plain_enumerator("USBSTOR"@);
    assert(enumerator_bus("USBSTOR"@) == BusKind::Usb);
    lemma_enumerator_id("USBSTOR"@, rest);
    lemma_plain_enumerator("USB"@);
    assert(enumerator_bus("USB"@) == BusKind::Usb);
    lemma_enumerator_id("USB"@, rest);
    lemma_plain_enumerator("SD"@);
    assert(enumerator_bus("SD"@) == BusKind::SdMmc);
    lemma_enumerator_id("SD"@, rest);
    lemma_plain_enumerator("MMC"@);
    assert(enumerator_bus("MMC"@) == BusKind::SdMmc);
    lemma_enumerator_id("MMC"@, rest);
    lemma_plain_enumerator("SDBUS"@);
    assert(enumerator_bus("SDBUS"@) == BusKind::SdMmc);
    lemma_enumerator_id("SDBUS"@, rest);
    lemma_plain_enumerator("SCSI"@);
    assert(enumerator_bus("SCSI"@) == BusKind::ScsiSas);
    lemma_enumerator_id("SCSI"@, rest);
    lemma_plain_enumerator("SAS"@);
    assert(enumerator_bus("SAS"@) == BusKind::ScsiSas);
    lemma_enumerator_id("SAS"@, rest);
    lemma_plain_enumerator("NVME"@);
    assert(enumerator_bus("NVME"@) == BusKind::Nvme);
    lemma_enumerator_id("NVME"@, rest);
    lemma_plain_enumerator("ESATA"@);
    assert(enumerator_bus("ESATA"@) == BusKind::Esata);
    lemma_enumerator_id("ESATA"@, rest);
    lemma_plain_enumerator("BTHENUM"@);
    assert(enumerator_bus("BTHENUM"@) == BusKind::Bluetooth);
    lemma_enumerator_id("BTHENUM"@, rest);
    lemma_plain_enumerator("BTHLE"@);
    assert(enumerator_bus("BTHLE"@) == BusKind::Bluetooth);
    lemma_enumerator_id("BTHLE"@, rest);
    lemma_plain_enumerator("1394"@);
    assert(enumerator_bus("1394"@) == BusKind::FireWire);
    lemma_enumerator_id("1394"@, rest);
    lemma_plain_enumerator("THUNDERBOLT"@);
    assert(enumerator_bus("THUNDERBOLT"@) == BusKind::Thunderbolt);
    lemma_enumerator_id("THUNDERBOLT"@, rest);
    lemma_plain_enumerator("PCI"@);
    assert(enumerator_bus("PCI"@) == BusKind::Pcie);
    lemma_enumerator_id("PCI"@, rest);
    lemma_plain_enumerator("WPDBUSENUMROOT"@);
    assert(enumerator_bus("WPDBUSENUMROOT"@) == BusKind::Mtp);
    lemma_enumerator_id("WPDBUSENUMROOT"@, rest);
    lemma_plain_enumerator("HID"@);
    assert(enumerator_bus("HID"@) == BusKind::Unknown);
    lemma_enumerator_id("HID"@, rest);
}

} // verus!
