//! Names of chips, vendors and cores.
use vstd::prelude::*;

use crate::dap::reg::RP2040_DEVID_MARK;
use crate::dap::types::{
    is_obr_family, is_optcr_family, is_optr_family, protection_register, JEP_NORDIC, JEP_RASPI,
    JEP_ST,
};

verus! {

/// Chips by device identifier. GD32F1 parts share theirs with STM32F1.
pub const CHIP_NAMES: [(u16, &'static str); 66] = [
    (0x440, "STM32F030/05x"),
    (0x444, "STM32F03x"),
    (0x442, "STM32F09x"),
    (0x445, "STM32F04x"),
    (0x448, "STM32F07x"),
    (0x410, "STM32F1/GD32"),
    (0x412, "STM32F1 LD"),
    (0x414, "STM32F1/GD32 HD"),
    (0x418, "STM32F1 CL"),
    (0x420, "STM32F1 VL"),
    (0x428, "STM32F1 VL-HD"),
    (0x430, "STM32F1 XL"),
    (0x411, "STM32F2"),
    (0x422, "STM32F302/303"),
    (0x432, "STM32F37x"),
    (0x438, "STM32F334"),
    (0x439, "STM32F301/302"),
    (0x446, "STM32F303xE"),
    (0x413, "STM32F405/407"),
    (0x419, "STM32F42x/43x"),
    (0x421, "STM32F446"),
    (0x423, "STM32F401xBC"),
    (0x431, "STM32F411"),
    (0x433, "STM32F401xDE"),
    (0x434, "STM32F469/479"),
    (0x441, "STM32F412"),
    (0x458, "STM32F410"),
    (0x463, "STM32F413"),
    (0x449, "STM32F74x/75x"),
    (0x451, "STM32F76x/77x"),
    (0x452, "STM32F72x/73x"),
    (0x456, "STM32G05x/06x"),
    (0x460, "STM32G07x/08x"),
    (0x466, "STM32G03x/04x"),
    (0x467, "STM32G0Bx/0Cx"),
    (0x468, "STM32G431/441"),
    (0x469, "STM32G47x/48x"),
    (0x479, "STM32G491/4A1"),
    (0x457, "STM32L01x/02x"),
    (0x425, "STM32L031/041"),
    (0x417, "STM32L05x/06x"),
    (0x447, "STM32L07x/08x"),
    (0x416, "STM32L1 Cat1/2"),
    (0x429, "STM32L1 Cat2"),
    (0x427, "STM32L1 Cat3"),
    (0x436, "STM32L1 Cat4"),
    (0x437, "STM32L1 Cat5/6"),
    (0x415, "STM32L4x5/x6"),
    (0x435, "STM32L43x/44x"),
    (0x461, "STM32L496/4A6"),
    (0x462, "STM32L45x/46x"),
    (0x464, "STM32L41x/42x"),
    (0x470, "STM32L4Rx/4Sx"),
    (0x471, "STM32L4Px/4Qx"),
    (0x472, "STM32L5"),
    (0x450, "STM32H74x/75x"),
    (0x480, "STM32H7Ax/7Bx"),
    (0x483, "STM32H72x/73x"),
    (0x494, "STM32WB1x"),
    (0x495, "STM32WB55"),
    (0x496, "STM32WB35"),
    (0x497, "STM32WL5x/Ex"),
    (0x482, "STM32U575/585"),
    (0x443, "STM32C0"),
    (0x453, "STM32C0"),
    (RP2040_DEVID_MARK, "RP2040"),
];

/// Vendors by JEP106 code.
pub const VENDOR_NAMES: [(u16, &'static str); 8] = [
    (JEP_ST, "STMicro"),
    (0x23B, "ARM"),
    (JEP_NORDIC, "Nordic"),
    (JEP_RASPI, "RaspberryPi"),
    (0x015, "NXP"),
    (0x00E, "NXP"),
    (0x017, "TI"),
    (0x01F, "Microchip"),
];

/// Cores by the PARTNO field of CPUID.
pub const CORE_NAMES: [(u16, &'static str); 10] = [
    (0xC20, "Cortex-M0"),
    (0xC60, "Cortex-M0+"),
    (0xC21, "Cortex-M1"),
    (0xC23, "Cortex-M3"),
    (0xC24, "Cortex-M4"),
    (0xC27, "Cortex-M7"),
    (0xD20, "Cortex-M23"),
    (0xD21, "Cortex-M33"),
    (0xD22, "Cortex-M55"),
    (0xD23, "Cortex-M85"),
];

/// The name of the first entry with the key, from entry `i` on.
pub open spec fn named(table: Seq<(u16, &'static str)>, key: u16, i: int) -> Option<&'static str>
    decreases table.len() - i,
{
    if i < 0 || i >= table.len() {
        None
    } else if table[i].0 == key {
        Some(table[i].1)
    } else {
        named(table, key, i + 1)
    }
}

/// The name that a table has for a key.
pub fn lookup(table: &[(u16, &'static str)], key: u16) -> (r: Option<&'static str>)
    ensures
        r == named(table@, key, 0),
{
    let mut i: usize = 0;
    while i < table.len()
        invariant
            i <= table@.len(),
            named(table@, key, i as int) == named(table@, key, 0),
        decreases table.len() - i,
    {
        if table[i].0 == key {
            return Some(table[i].1);
        }
        i = i + 1;
    }
    None
}

/// The name of a core.
pub fn core_name(part: u16) -> (r: Option<&'static str>)
    ensures
        r == named(CORE_NAMES@, part, 0),
{
    lookup(CORE_NAMES.as_slice(), part)
}

/// The name of a chip.
pub fn chip_name(devid: u16) -> (r: Option<&'static str>)
    ensures
        r == named(CHIP_NAMES@, devid, 0),
{
    lookup(CHIP_NAMES.as_slice(), devid)
}

/// The name of a vendor.
pub fn vendor_name(designer: u16) -> (r: Option<&'static str>)
    ensures
        r == named(VENDOR_NAMES@, designer, 0),
{
    lookup(VENDOR_NAMES.as_slice(), designer)
}

/// No key stands in a table twice.
pub open spec fn keys_differ(table: Seq<(u16, &'static str)>) -> bool {
    forall|i: int, j: int| 0 <= i < j < table.len() ==> #[trigger] table[i].0 != #[trigger] table[j].0
}

/// Where no key stands in a table twice, every entry is found by its key.
pub proof fn entries_are_found(table: Seq<(u16, &'static str)>, i: int, k: int)
    requires
        keys_differ(table),
        0 <= k <= i < table.len(),
    ensures
        named(table, table[i].0, k) == Some(table[i].1),
    decreases i - k,
{
    if k < i {
        entries_are_found(table, i, k + 1);
    }
}

/// The place of a key in [`CORE_NAMES`]; -1 for every other key.
spec fn core_rank(key: u16) -> int {
    if key == 0xC20 {
        0
    } else if key == 0xC60 {
        1
    } else if key == 0xC21 {
        2
    } else if key == 0xC23 {
        3
    } else if key == 0xC24 {
        4
    } else if key == 0xC27 {
        5
    } else if key == 0xD20 {
        6
    } else if key == 0xD21 {
        7
    } else if key == 0xD22 {
        8
    } else if key == 0xD23 {
        9
    } else {
        -1
    }
}

/// The place of a key in [`VENDOR_NAMES`]; -1 for every other key.
spec fn vendor_rank(key: u16) -> int {
    if key == JEP_ST {
        0
    } else if key == 0x23B {
        1
    } else if key == JEP_NORDIC {
        2
    } else if key == JEP_RASPI {
        3
    } else if key == 0x015 {
        4
    } else if key == 0x00E {
        5
    } else if key == 0x017 {
        6
    } else if key == 0x01F {
        7
    } else {
        -1
    }
}

/// Every vendor's and every core's name in the tables is found by its key.
pub proof fn vendors_and_cores_are_found()
    ensures
        keys_differ(CORE_NAMES@),
        keys_differ(VENDOR_NAMES@),
        forall|i: int|
            0 <= i < CORE_NAMES@.len() ==> named(CORE_NAMES@, (#[trigger] CORE_NAMES@[i]).0, 0)
                == Some(CORE_NAMES@[i].1),
        forall|i: int|
            0 <= i < VENDOR_NAMES@.len() ==> named(
                VENDOR_NAMES@,
                (#[trigger] VENDOR_NAMES@[i]).0,
                0,
            ) == Some(VENDOR_NAMES@[i].1),
{
    assert(CORE_NAMES@[0].0 == 0xC20);
    assert(CORE_NAMES@[1].0 == 0xC60);
    assert(CORE_NAMES@[2].0 == 0xC21);
    assert(CORE_NAMES@[3].0 == 0xC23);
    assert(CORE_NAMES@[4].0 == 0xC24);
    assert(CORE_NAMES@[5].0 == 0xC27);
    assert(CORE_NAMES@[6].0 == 0xD20);
    assert(CORE_NAMES@[7].0 == 0xD21);
    assert(CORE_NAMES@[8].0 == 0xD22);
    assert(CORE_NAMES@[9].0 == 0xD23);
    assert forall|i: int, j: int| 0 <= i < j < CORE_NAMES@.len() implies #[trigger] CORE_NAMES@[i].0
        != #[trigger] CORE_NAMES@[j].0 by {
        assert(core_rank(CORE_NAMES@[i].0) == i);
        assert(core_rank(CORE_NAMES@[j].0) == j);
    }
    assert(VENDOR_NAMES@[0].0 == JEP_ST);
    assert(VENDOR_NAMES@[1].0 == 0x23B);
    assert(VENDOR_NAMES@[2].0 == JEP_NORDIC);
    assert(VENDOR_NAMES@[3].0 == JEP_RASPI);
    assert(VENDOR_NAMES@[4].0 == 0x015);
    assert(VENDOR_NAMES@[5].0 == 0x00E);
    assert(VENDOR_NAMES@[6].0 == 0x017);
    assert(VENDOR_NAMES@[7].0 == 0x01F);
    assert forall|i: int, j: int| 0 <= i < j < VENDOR_NAMES@.len() implies #[trigger] VENDOR_NAMES@[i].0
        != #[trigger] VENDOR_NAMES@[j].0 by {
        assert(vendor_rank(VENDOR_NAMES@[i].0) == i);
        assert(vendor_rank(VENDOR_NAMES@[j].0) == j);
    }
    assert forall|i: int| 0 <= i < CORE_NAMES@.len() implies named(
        CORE_NAMES@,
        (#[trigger] CORE_NAMES@[i]).0,
        0,
    ) == Some(CORE_NAMES@[i].1) by {
        entries_are_found(CORE_NAMES@, i, 0);
    }
    assert forall|i: int| 0 <= i < VENDOR_NAMES@.len() implies named(
        VENDOR_NAMES@,
        (#[trigger] VENDOR_NAMES@[i]).0,
        0,
    ) == Some(VENDOR_NAMES@[i].1) by {
        entries_are_found(VENDOR_NAMES@, i, 0);
    }
}

/// The place of a key in [`CHIP_NAMES`]; -1 for every other key.
spec fn chip_rank(key: u16) -> int {
    if key == 0x440 {
        0
    } else if key == 0x444 {
        1
    } else if key == 0x442 {
        2
    } else if key == 0x445 {
        3
    } else if key == 0x448 {
        4
    } else if key == 0x410 {
        5
    } else if key == 0x412 {
        6
    } else if key == 0x414 {
        7
    } else if key == 0x418 {
        8
    } else if key == 0x420 {
        9
    } else if key == 0x428 {
        10
    } else if key == 0x430 {
        11
    } else if key == 0x411 {
        12
    } else if key == 0x422 {
        13
    } else if key == 0x432 {
        14
    } else if key == 0x438 {
        15
    } else if key == 0x439 {
        16
    } else if key == 0x446 {
        17
    } else if key == 0x413 {
        18
    } else if key == 0x419 {
        19
    } else if key == 0x421 {
        20
    } else if key == 0x423 {
        21
    } else if key == 0x431 {
        22
    } else if key == 0x433 {
        23
    } else if key == 0x434 {
        24
    } else if key == 0x441 {
        25
    } else if key == 0x458 {
        26
    } else if key == 0x463 {
        27
    } else if key == 0x449 {
        28
    } else if key == 0x451 {
        29
    } else if key == 0x452 {
        30
    } else if key == 0x456 {
        31
    } else if key == 0x460 {
        32
    } else if key == 0x466 {
        33
    } else if key == 0x467 {
        34
    } else if key == 0x468 {
        35
    } else if key == 0x469 {
        36
    } else if key == 0x479 {
        37
    } else if key == 0x457 {
        38
    } else if key == 0x425 {
        39
    } else if key == 0x417 {
        40
    } else if key == 0x447 {
        41
    } else if key == 0x416 {
        42
    } else if key == 0x429 {
        43
    } else if key == 0x427 {
        44
    } else if key == 0x436 {
        45
    } else if key == 0x437 {
        46
    } else if key == 0x415 {
        47
    } else if key == 0x435 {
        48
    } else if key == 0x461 {
        49
    } else if key == 0x462 {
        50
    } else if key == 0x464 {
        51
    } else if key == 0x470 {
        52
    } else if key == 0x471 {
        53
    } else if key == 0x472 {
        54
    } else if key == 0x450 {
        55
    } else if key == 0x480 {
        56
    } else if key == 0x483 {
        57
    } else if key == 0x494 {
        58
    } else if key == 0x495 {
        59
    } else if key == 0x496 {
        60
    } else if key == 0x497 {
        61
    } else if key == 0x482 {
        62
    } else if key == 0x443 {
        63
    } else if key == 0x453 {
        64
    } else if key == RP2040_DEVID_MARK {
        65
    } else {
        -1
    }
}

/// [`chip_rank`] and the keys of [`CHIP_NAMES`] belong together.
proof fn chip_ranks()
    ensures
        forall|i: int|
            0 <= i < CHIP_NAMES@.len() ==> chip_rank((#[trigger] CHIP_NAMES@[i]).0) == i,
        forall|d: u16| #[trigger]
            chip_rank(d) >= 0 ==> chip_rank(d) < CHIP_NAMES@.len() && CHIP_NAMES@[chip_rank(d)].0
                == d,
{
    assert(CHIP_NAMES@[0].0 == 0x440);
    assert(CHIP_NAMES@[1].0 == 0x444);
    assert(CHIP_NAMES@[2].0 == 0x442);
    assert(CHIP_NAMES@[3].0 == 0x445);
    assert(CHIP_NAMES@[4].0 == 0x448);
    assert(CHIP_NAMES@[5].0 == 0x410);
    assert(CHIP_NAMES@[6].0 == 0x412);
    assert(CHIP_NAMES@[7].0 == 0x414);
    assert(CHIP_NAMES@[8].0 == 0x418);
    assert(CHIP_NAMES@[9].0 == 0x420);
    assert(CHIP_NAMES@[10].0 == 0x428);
    assert(CHIP_NAMES@[11].0 == 0x430);
    assert(CHIP_NAMES@[12].0 == 0x411);
    assert(CHIP_NAMES@[13].0 == 0x422);
    assert(CHIP_NAMES@[14].0 == 0x432);
    assert(CHIP_NAMES@[15].0 == 0x438);
    assert(CHIP_NAMES@[16].0 == 0x439);
    assert(CHIP_NAMES@[17].0 == 0x446);
    assert(CHIP_NAMES@[18].0 == 0x413);
    assert(CHIP_NAMES@[19].0 == 0x419);
    assert(CHIP_NAMES@[20].0 == 0x421);
    assert(CHIP_NAMES@[21].0 == 0x423);
    assert(CHIP_NAMES@[22].0 == 0x431);
    assert(CHIP_NAMES@[23].0 == 0x433);
    assert(CHIP_NAMES@[24].0 == 0x434);
    assert(CHIP_NAMES@[25].0 == 0x441);
    assert(CHIP_NAMES@[26].0 == 0x458);
    assert(CHIP_NAMES@[27].0 == 0x463);
    assert(CHIP_NAMES@[28].0 == 0x449);
    assert(CHIP_NAMES@[29].0 == 0x451);
    assert(CHIP_NAMES@[30].0 == 0x452);
    assert(CHIP_NAMES@[31].0 == 0x456);
    assert(CHIP_NAMES@[32].0 == 0x460);
    assert(CHIP_NAMES@[33].0 == 0x466);
    assert(CHIP_NAMES@[34].0 == 0x467);
    assert(CHIP_NAMES@[35].0 == 0x468);
    assert(CHIP_NAMES@[36].0 == 0x469);
    assert(CHIP_NAMES@[37].0 == 0x479);
    assert(CHIP_NAMES@[38].0 == 0x457);
    assert(CHIP_NAMES@[39].0 == 0x425);
    assert(CHIP_NAMES@[40].0 == 0x417);
    assert(CHIP_NAMES@[41].0 == 0x447);
    assert(CHIP_NAMES@[42].0 == 0x416);
    assert(CHIP_NAMES@[43].0 == 0x429);
    assert(CHIP_NAMES@[44].0 == 0x427);
    assert(CHIP_NAMES@[45].0 == 0x436);
    assert(CHIP_NAMES@[46].0 == 0x437);
    assert(CHIP_NAMES@[47].0 == 0x415);
    assert(CHIP_NAMES@[48].0 == 0x435);
    assert(CHIP_NAMES@[49].0 == 0x461);
    assert(CHIP_NAMES@[50].0 == 0x462);
    assert(CHIP_NAMES@[51].0 == 0x464);
    assert(CHIP_NAMES@[52].0 == 0x470);
    assert(CHIP_NAMES@[53].0 == 0x471);
    assert(CHIP_NAMES@[54].0 == 0x472);
    assert(CHIP_NAMES@[55].0 == 0x450);
    assert(CHIP_NAMES@[56].0 == 0x480);
    assert(CHIP_NAMES@[57].0 == 0x483);
    assert(CHIP_NAMES@[58].0 == 0x494);
    assert(CHIP_NAMES@[59].0 == 0x495);
    assert(CHIP_NAMES@[60].0 == 0x496);
    assert(CHIP_NAMES@[61].0 == 0x497);
    assert(CHIP_NAMES@[62].0 == 0x482);
    assert(CHIP_NAMES@[63].0 == 0x443);
    assert(CHIP_NAMES@[64].0 == 0x453);
    assert(CHIP_NAMES@[65].0 == RP2040_DEVID_MARK);
}

/// Every chip's name in the table is found by its device identifier.
pub proof fn chips_are_found()
    ensures
        keys_differ(CHIP_NAMES@),
        forall|i: int|
            0 <= i < CHIP_NAMES@.len() ==> named(CHIP_NAMES@, (#[trigger] CHIP_NAMES@[i]).0, 0)
                == Some(CHIP_NAMES@[i].1),
{
    chip_ranks();
    assert forall|i: int, j: int| 0 <= i < j < CHIP_NAMES@.len() implies #[trigger] CHIP_NAMES@[i].0
        != #[trigger] CHIP_NAMES@[j].0 by {
        assert(chip_rank(CHIP_NAMES@[i].0) == i);
        assert(chip_rank(CHIP_NAMES@[j].0) == j);
    }
    assert forall|i: int| 0 <= i < CHIP_NAMES@.len() implies named(
        CHIP_NAMES@,
        (#[trigger] CHIP_NAMES@[i]).0,
        0,
    ) == Some(CHIP_NAMES@[i].1) by {
        entries_are_found(CHIP_NAMES@, i, 0);
    }
}

/// The name is that of an F2, F4 or F7.
pub open spec fn is_optcr_name(name: Seq<char>) -> bool {
    "STM32F2"@.is_prefix_of(name) || "STM32F4"@.is_prefix_of(name) || "STM32F7"@.is_prefix_of(name)
}

/// The name is that of an F0, F1 or F3.
pub open spec fn is_obr_name(name: Seq<char>) -> bool {
    "STM32F0"@.is_prefix_of(name) || "STM32F1"@.is_prefix_of(name) || "STM32F3"@.is_prefix_of(name)
}

/// The name is that of an L4, G0 or G4.
pub open spec fn is_optr_name(name: Seq<char>) -> bool {
    "STM32L4"@.is_prefix_of(name) || "STM32G0"@.is_prefix_of(name) || "STM32G4"@.is_prefix_of(name)
}

/// The name is STM32, followed by these two characters.
spec fn is_series(name: Seq<char>, a: char, b: char) -> bool {
    &&& name.len() >= 7
    &&& name[0] == 'S' && name[1] == 'T' && name[2] == 'M' && name[3] == '3' && name[4] == '2'
    &&& name[5] == a && name[6] == b
}

proof fn prefix_is_series(start: Seq<char>, name: Seq<char>, a: char, b: char)
    requires
        start.len() == 7,
        is_series(start, a, b),
    ensures
        start.is_prefix_of(name) <==> is_series(name, a, b),
{
    if is_series(name, a, b) {
        assert(start =~= name.subrange(0, 7));
    }
    if start.is_prefix_of(name) {
        assert forall|i: int| 0 <= i < 7 implies name[i] == start[i] by {
            assert(name.subrange(0, 7)[i] == name[i]);
        }
    }
}

/// What the three kinds of names look like, character by character.
proof fn names_by_series(name: Seq<char>)
    ensures
        is_optcr_name(name) <==> is_series(name, 'F', '2') || is_series(name, 'F', '4')
            || is_series(name, 'F', '7'),
        is_obr_name(name) <==> is_series(name, 'F', '0') || is_series(name, 'F', '1')
            || is_series(name, 'F', '3'),
        is_optr_name(name) <==> is_series(name, 'L', '4') || is_series(name, 'G', '0')
            || is_series(name, 'G', '4'),
{
    reveal_strlit("STM32F2");
    reveal_strlit("STM32F4");
    reveal_strlit("STM32F7");
    reveal_strlit("STM32F0");
    reveal_strlit("STM32F1");
    reveal_strlit("STM32F3");
    reveal_strlit("STM32L4");
    reveal_strlit("STM32G0");
    reveal_strlit("STM32G4");
    prefix_is_series("STM32F2"@, name, 'F', '2');
    prefix_is_series("STM32F4"@, name, 'F', '4');
    prefix_is_series("STM32F7"@, name, 'F', '7');
    prefix_is_series("STM32F0"@, name, 'F', '0');
    prefix_is_series("STM32F1"@, name, 'F', '1');
    prefix_is_series("STM32F3"@, name, 'F', '3');
    prefix_is_series("STM32L4"@, name, 'L', '4');
    prefix_is_series("STM32G0"@, name, 'G', '0');
    prefix_is_series("STM32G4"@, name, 'G', '4');
}

/// The device identifier of an entry belongs to the family that starts its name.
spec fn entry_agrees(i: int) -> bool {
    let d = CHIP_NAMES@[i].0;
    let name = CHIP_NAMES@[i].1@;
    &&& is_optcr_family(d) <==> is_series(name, 'F', '2') || is_series(name, 'F', '4')
        || is_series(name, 'F', '7')
    &&& is_obr_family(d) <==> is_series(name, 'F', '0') || is_series(name, 'F', '1')
        || is_series(name, 'F', '3')
    &&& is_optr_family(d) <==> is_series(name, 'L', '4') || is_series(name, 'G', '0')
        || is_series(name, 'G', '4')
}

proof fn f_entries()
    ensures
        forall|i: int| 0 <= i < 31 ==> #[trigger] entry_agrees(i),
{
    assert(entry_agrees(0)) by {
        reveal_strlit("STM32F030/05x");
    }
    assert(entry_agrees(1)) by {
        reveal_strlit("STM32F03x");
    }
    assert(entry_agrees(2)) by {
        reveal_strlit("STM32F09x");
    }
    assert(entry_agrees(3)) by {
        reveal_strlit("STM32F04x");
    }
    assert(entry_agrees(4)) by {
        reveal_strlit("STM32F07x");
    }
    assert(entry_agrees(5)) by {
        reveal_strlit("STM32F1/GD32");
    }
    assert(entry_agrees(6)) by {
        reveal_strlit("STM32F1 LD");
    }
    assert(entry_agrees(7)) by {
        reveal_strlit("STM32F1/GD32 HD");
    }
    assert(entry_agrees(8)) by {
        reveal_strlit("STM32F1 CL");
    }
    assert(entry_agrees(9)) by {
        reveal_strlit("STM32F1 VL");
    }
    assert(entry_agrees(10)) by {
        reveal_strlit("STM32F1 VL-HD");
    }
    assert(entry_agrees(11)) by {
        reveal_strlit("STM32F1 XL");
    }
    assert(entry_agrees(12)) by {
        reveal_strlit("STM32F2");
    }
    assert(entry_agrees(13)) by {
        reveal_strlit("STM32F302/303");
    }
    assert(entry_agrees(14)) by {
        reveal_strlit("STM32F37x");
    }
    assert(entry_agrees(15)) by {
        reveal_strlit("STM32F334");
    }
    assert(entry_agrees(16)) by {
        reveal_strlit("STM32F301/302");
    }
    assert(entry_agrees(17)) by {
        reveal_strlit("STM32F303xE");
    }
    assert(entry_agrees(18)) by {
        reveal_strlit("STM32F405/407");
    }
    assert(entry_agrees(19)) by {
        reveal_strlit("STM32F42x/43x");
    }
    assert(entry_agrees(20)) by {
        reveal_strlit("STM32F446");
    }
    assert(entry_agrees(21)) by {
        reveal_strlit("STM32F401xBC");
    }
    assert(entry_agrees(22)) by {
        reveal_strlit("STM32F411");
    }
    assert(entry_agrees(23)) by {
        reveal_strlit("STM32F401xDE");
    }
    assert(entry_agrees(24)) by {
        reveal_strlit("STM32F469/479");
    }
    assert(entry_agrees(25)) by {
        reveal_strlit("STM32F412");
    }
    assert(entry_agrees(26)) by {
        reveal_strlit("STM32F410");
    }
    assert(entry_agrees(27)) by {
        reveal_strlit("STM32F413");
    }
    assert(entry_agrees(28)) by {
        reveal_strlit("STM32F74x/75x");
    }
    assert(entry_agrees(29)) by {
        reveal_strlit("STM32F76x/77x");
    }
    assert(entry_agrees(30)) by {
        reveal_strlit("STM32F72x/73x");
    }
}

proof fn g_and_l_entries()
    ensures
        forall|i: int| 31 <= i < 54 ==> #[trigger] entry_agrees(i),
{
    assert(entry_agrees(31)) by {
        reveal_strlit("STM32G05x/06x");
    }
    assert(entry_agrees(32)) by {
        reveal_strlit("STM32G07x/08x");
    }
    assert(entry_agrees(33)) by {
        reveal_strlit("STM32G03x/04x");
    }
    assert(entry_agrees(34)) by {
        reveal_strlit("STM32G0Bx/0Cx");
    }
    assert(entry_agrees(35)) by {
        reveal_strlit("STM32G431/441");
    }
    assert(entry_agrees(36)) by {
        reveal_strlit("STM32G47x/48x");
    }
    assert(entry_agrees(37)) by {
        reveal_strlit("STM32G491/4A1");
    }
    assert(entry_agrees(38)) by {
        reveal_strlit("STM32L01x/02x");
    }
    assert(entry_agrees(39)) by {
        reveal_strlit("STM32L031/041");
    }
    assert(entry_agrees(40)) by {
        reveal_strlit("STM32L05x/06x");
    }
    assert(entry_agrees(41)) by {
        reveal_strlit("STM32L07x/08x");
    }
    assert(entry_agrees(42)) by {
        reveal_strlit("STM32L1 Cat1/2");
    }
    assert(entry_agrees(43)) by {
        reveal_strlit("STM32L1 Cat2");
    }
    assert(entry_agrees(44)) by {
        reveal_strlit("STM32L1 Cat3");
    }
    assert(entry_agrees(45)) by {
        reveal_strlit("STM32L1 Cat4");
    }
    assert(entry_agrees(46)) by {
        reveal_strlit("STM32L1 Cat5/6");
    }
    assert(entry_agrees(47)) by {
        reveal_strlit("STM32L4x5/x6");
    }
    assert(entry_agrees(48)) by {
        reveal_strlit("STM32L43x/44x");
    }
    assert(entry_agrees(49)) by {
        reveal_strlit("STM32L496/4A6");
    }
    assert(entry_agrees(50)) by {
        reveal_strlit("STM32L45x/46x");
    }
    assert(entry_agrees(51)) by {
        reveal_strlit("STM32L41x/42x");
    }
    assert(entry_agrees(52)) by {
        reveal_strlit("STM32L4Rx/4Sx");
    }
    assert(entry_agrees(53)) by {
        reveal_strlit("STM32L4Px/4Qx");
    }
}

proof fn other_entries()
    ensures
        forall|i: int| 54 <= i < 66 ==> #[trigger] entry_agrees(i),
{
    assert(entry_agrees(54)) by {
        reveal_strlit("STM32L5");
    }
    assert(entry_agrees(55)) by {
        reveal_strlit("STM32H74x/75x");
    }
    assert(entry_agrees(56)) by {
        reveal_strlit("STM32H7Ax/7Bx");
    }
    assert(entry_agrees(57)) by {
        reveal_strlit("STM32H72x/73x");
    }
    assert(entry_agrees(58)) by {
        reveal_strlit("STM32WB1x");
    }
    assert(entry_agrees(59)) by {
        reveal_strlit("STM32WB55");
    }
    assert(entry_agrees(60)) by {
        reveal_strlit("STM32WB35");
    }
    assert(entry_agrees(61)) by {
        reveal_strlit("STM32WL5x/Ex");
    }
    assert(entry_agrees(62)) by {
        reveal_strlit("STM32U575/585");
    }
    assert(entry_agrees(63)) by {
        reveal_strlit("STM32C0");
    }
    assert(entry_agrees(64)) by {
        reveal_strlit("STM32C0");
    }
    assert(entry_agrees(65)) by {
        reveal_strlit("RP2040");
    }
}

proof fn keys_without_entry(table: Seq<(u16, &'static str)>, key: u16, k: int)
    requires
        0 <= k,
        forall|i: int| k <= i < table.len() ==> (#[trigger] table[i]).0 != key,
    ensures
        named(table, key, k) is None,
    decreases table.len() - k,
{
    if k < table.len() {
        keys_without_entry(table, key, k + 1);
    }
}

/// Where a device keeps its read protection follows from the family that starts its name:
/// F2, F4 and F7 have it in OPTCR, F0, F1 and F3 in OBR, L4, G0 and G4 in OPTR. Of every
/// other chip, and of a device without a name, the register is not known.
pub proof fn protection_follows_the_name(d: u16)
    ensures
        match named(CHIP_NAMES@, d, 0) {
            Some(name) => {
                &&& protection_register(d) is Optcr <==> is_optcr_name(name@)
                &&& protection_register(d) is Obr <==> is_obr_name(name@)
                &&& protection_register(d) is Optr <==> is_optr_name(name@)
                &&& protection_register(d) is Unknown <==> !is_optcr_name(name@) && !is_obr_name(
                    name@,
                ) && !is_optr_name(name@)
            },
            None => protection_register(d) is Unknown,
        },
{
    chip_ranks();
    if chip_rank(d) >= 0 {
        let i = chip_rank(d);
        chips_are_found();
        f_entries();
        g_and_l_entries();
        other_entries();
        assert(entry_agrees(i));
        names_by_series(CHIP_NAMES@[i].1@);
    } else {
        keys_without_entry(CHIP_NAMES@, d, 0);
    }
}

} // verus!
