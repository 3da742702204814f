//! Memory, numbers, text and engine reflection.

use huragok::bytes;
use huragok::ieee;
use huragok::mem;
use huragok::memory::{Memory, Put, elem_addr, from_i16, from_i32, from_i8, to_i16, to_i32, to_i8};
use huragok::offsets::{FNAMEPOOL, GUOBJECTARRAY, NP_BLOCKS, PROCESSEVENT_SLOT};
use huragok::text;
use huragok::ue;
use huragok::ue::fname::{name_by_id, obj_name};
use huragok::ue::object::{num_chunks, num_elements, object_at};
use huragok::ue::process_event::{ANY_SIZE, Call, pe_call, process_event};
use huragok::ue::reflect::{
    class_chain_has, class_of, find_cdo, find_class, find_function, find_live_by_class,
    find_player_controller, is_a, is_live_of_class, list_properties, probe_functions,
    property_offset, super_of,
};

const BASE: u64 = 0x1_4000_0000;
const BLOCK: u64 = 0x2_0000_0000;
const CHUNKS: u64 = 0x3_0000_0000;
const CHUNK: u64 = 0x3_0000_1000;
const VTABLE: u64 = 0x5_0000_0000;

fn put(m: &mut Memory, a: u64, v: u64, n: u64) {
    for i in 0..n {
        m.load(a.wrapping_add(i), (v >> (8 * i)) as u8);
    }
}

/// A small object world. Names lie in one pool block, objects in one chunk.
struct World {
    m: Memory,
    names: u64,
    slots: u64,
    next: u64,
}

impl World {
    fn new() -> World {
        let mut m = Memory::new();
        put(&mut m, BASE + FNAMEPOOL + NP_BLOCKS, BLOCK, 8);
        put(&mut m, BASE + GUOBJECTARRAY + 0x10, CHUNKS, 8);
        put(&mut m, BASE + GUOBJECTARRAY + 0x2c, 1, 4);
        put(&mut m, CHUNKS, CHUNK, 8);
        let mut w = World { m, names: 0, slots: 0, next: 0x4_0000_0000 };
        assert_eq!(w.name("None"), 0);
        w.count();
        w
    }

    fn name(&mut self, s: &str) -> u64 {
        let id = self.names;
        let at = BLOCK + 2 * id;
        put(&mut self.m, at, (s.len() as u64) << 6, 2);
        for (i, b) in s.bytes().enumerate() {
            self.m.load(at + 2 + i as u64, b);
        }
        self.names = id + (2 + s.len() as u64 + 1) / 2;
        id
    }

    fn count(&mut self) {
        let n = self.slots;
        put(&mut self.m, BASE + GUOBJECTARRAY + 0x24, n, 4);
    }

    /// An object with a name and a class, in the next slot of the table.
    fn object(&mut self, name: &str, class: u64) -> u64 {
        let o = self.next;
        self.next += 0x200;
        for i in 0..0x100 {
            self.m.load(o + i, 0);
        }
        let id = self.name(name);
        put(&mut self.m, o, VTABLE, 8);
        put(&mut self.m, o + 0x10, class, 8);
        put(&mut self.m, o + 0x18, id, 4);
        put(&mut self.m, CHUNK + self.slots * 0x18, o, 8);
        self.slots += 1;
        self.count();
        o
    }

    /// A class with a parent.
    fn class(&mut self, name: &str, meta: u64, parent: u64) -> u64 {
        let c = self.object(name, meta);
        put(&mut self.m, c + 0x40, parent, 8);
        c
    }

    /// A function, first in the child list of its class.
    fn function(&mut self, name: &str, meta: u64, class: u64, size: u64) -> u64 {
        let f = self.object(name, meta);
        let first = self.m.read_u64(class + 0x48).unwrap();
        put(&mut self.m, f + 0x28, first, 8);
        put(&mut self.m, f + 0x20, class, 8);
        put(&mut self.m, f + 0xb6, size, 2);
        put(&mut self.m, class + 0x48, f, 8);
        f
    }
}

#[test]
fn memory_reads_little_endian() {
    let mut m = Memory::new();
    put(&mut m, 0x1000, 0x1122_3344_5566_7788, 8);
    assert_eq!(m.read_u8(0x1000), Some(0x88));
    assert_eq!(m.read_u16(0x1000), Some(0x7788));
    assert_eq!(m.read_u32(0x1002), Some(0x3344_5566));
    assert_eq!(m.read_u64(0x1000), Some(0x1122_3344_5566_7788));
    assert_eq!(m.read_link(0x1000), Some(0x1122_3344_5566_7788));
    assert_eq!(m.read_bytes(0x1006, 2), Some(vec![0x22, 0x11]));
    assert_eq!(m.read_units(0x1000, 2), Some(vec![0x7788, 0x5566]));
    assert_eq!(m.peek(0x1007), Some(0x11));
}

#[test]
fn memory_fault_is_noted_and_changes_nothing() {
    let mut m = Memory::new();
    put(&mut m, 0x2000, 0xaabb, 2);
    assert_eq!(m.read_u32(0x2000), None);
    assert!(!m.write_u32(0x2000, 7));
    assert_eq!(m.read_u16(0x2000), Some(0xaabb));
    // what is noted is the first byte that is missing
    assert_eq!(m.take_faults(), vec![0x2002, 0x2002]);
    assert!(m.take_faults().is_empty());
    assert_eq!(m.read_u64(0x1fff), None);
    assert_eq!(m.read_u16(0x2001), None);
    assert_eq!(m.take_faults(), vec![0x1fff, 0x2002]);
    put(&mut m, 0x2002, 0, 2);
    assert!(m.write_u32(0x2000, 7));
    assert_eq!(m.read_u32(0x2000), Some(7));
}

#[test]
fn memory_wraps_at_the_top() {
    let mut m = Memory::new();
    m.load(u64::MAX, 0x34);
    m.load(0, 0x12);
    assert_eq!(m.read_u16(u64::MAX), Some(0x1234));
    assert!(m.write_u16(u64::MAX, 0xbeef));
    assert_eq!(m.peek(0), Some(0xbe));
    assert_eq!(elem_addr(u64::MAX - 7, 2, 8), 8);
}

#[test]
fn memory_null_pointer_is_no_link() {
    let mut m = Memory::new();
    put(&mut m, 0x10, 0, 8);
    assert_eq!(m.read_u64(0x10), Some(0));
    assert_eq!(m.read_link(0x10), None);
}

#[test]
fn memory_row_of_stores_stops_at_a_fault() {
    let mut m = Memory::new();
    put(&mut m, 0x100, 0, 4);
    put(&mut m, 0x200, 0, 8);
    let row = vec![Put::Word(0x100, 5), Put::Byte(0x300, 1), Put::Long(0x200, 9)];
    assert!(!m.write_all(&row));
    assert_eq!(m.read_u32(0x100), Some(5));
    assert_eq!(m.read_u64(0x200), Some(0));
    assert!(m.write_all(&vec![Put::Long(0x200, 9), Put::Byte(0x100, 1)]));
    assert_eq!(m.read_u64(0x200), Some(9));
    assert_eq!(m.read_u32(0x100), Some(1));
}

#[test]
fn memory_run_of_bytes_is_all_or_nothing() {
    let mut m = Memory::new();
    m.load_bytes(0x40, &vec![1, 2, 3]);
    assert!(!m.write_bytes(0x40, &vec![9, 9, 9, 9]));
    assert_eq!(m.read_bytes(0x40, 3), Some(vec![1, 2, 3]));
    assert!(m.write_bytes(0x40, &vec![9, 8, 7]));
    assert_eq!(m.read_bytes(0x40, 3), Some(vec![9, 8, 7]));
}

#[test]
fn memory_triples() {
    let mut m = Memory::new();
    put(&mut m, 0x50, 0, 12);
    assert!(m.write_triple(0x50, [1, 2, 3]));
    assert_eq!(m.read_triple(0x50), Some([1, 2, 3]));
    assert_eq!(m.read_triple(0x54), None);
    assert!(!m.write_triple(0x54, [7, 8, 9]));
    assert_eq!(m.read_u32(0x54), Some(7));
    assert_eq!(m.read_u32(0x58), Some(8));
}

#[test]
fn signed_patterns() {
    assert_eq!(to_i8(0xff), -1);
    assert_eq!(to_i16(0x8000), i16::MIN);
    assert_eq!(to_i32(0xffff_fffe), -2);
    assert_eq!(from_i8(-1), 0xff);
    assert_eq!(from_i16(-2), 0xfffe);
    assert_eq!(from_i32(i32::MIN), 0x8000_0000);
    let mut m = Memory::new();
    put(&mut m, 8, 0, 4);
    assert!(m.write_i32(8, -5));
    assert_eq!(m.read_i32(8), Some(-5));
    assert_eq!(m.read_i16(10), Some(-1));
    assert_eq!(m.read_i8(8), Some(-5));
    assert!(m.write_i16(8, 3));
    assert!(m.write_i8(10, 7));
    assert_eq!(m.read_u32(8), Some(0xff07_0003));
}

#[test]
fn parameter_blocks_read_back() {
    let mut b = bytes::zeroed(24);
    bytes::set_u64(&mut b, 8, 0x0102_0304_0506_0708);
    bytes::set_u32(&mut b, 4, 0xdead_beef);
    bytes::set_u8(&mut b, 0, 9);
    assert_eq!(bytes::get_u64(&b, 8), 0x0102_0304_0506_0708);
    assert_eq!(bytes::get_u32(&b, 4), 0xdead_beef);
    assert_eq!(b[0], 9);
    assert_eq!(b[8], 8);
    let mut c: Vec<u8> = Vec::new();
    bytes::push_u32(&mut c, 1);
    bytes::push_u64(&mut c, 2);
    assert_eq!(c, vec![1, 0, 0, 0, 2, 0, 0, 0, 0, 0, 0, 0]);
}

#[test]
fn single_precision_patterns_compare_as_numbers() {
    let values = [
        f32::NEG_INFINITY,
        -1e30,
        -2.5,
        -1.0,
        -f32::MIN_POSITIVE,
        -0.0,
        0.0,
        1e-40,
        0.5,
        1.0,
        120.0,
        f32::MAX,
        f32::INFINITY,
        f32::NAN,
        -f32::NAN,
    ];
    for x in values {
        let b = x.to_bits();
        assert_eq!(ieee::abs32(b), x.abs().to_bits());
        assert_eq!(ieee::neg32(b), (-x).to_bits());
        assert_eq!(ieee::is_nan32(b), x.is_nan());
        assert_eq!(ieee::is_finite32(b), x.is_finite());
        for y in values {
            let c = y.to_bits();
            assert_eq!(ieee::lt32(b, c), x < y);
            assert_eq!(ieee::le32(b, c), x <= y);
            if x != y {
                assert_eq!(f32::from_bits(ieee::max32(b, c)).to_bits() == x.max(y).to_bits(), true);
                assert_eq!(f32::from_bits(ieee::min32(b, c)).to_bits() == x.min(y).to_bits(), true);
            }
        }
    }
    for x in [-5.0f32, 0.25, 7.0] {
        assert_eq!(
            ieee::clamp32(x.to_bits(), 0, ieee::ONE),
            x.clamp(0.0, 1.0).to_bits()
        );
    }
}

#[test]
fn double_precision_patterns_compare_as_numbers() {
    let values = [-89.0f64, -1e-300, -0.0, 0.0, 0.5, 89.0, 1e300, f64::INFINITY, f64::NAN];
    for x in values {
        let b = x.to_bits();
        assert_eq!(ieee::is_nan64(b), x.is_nan());
        for y in values {
            let c = y.to_bits();
            assert_eq!(ieee::lt64(b, c), x < y);
            if x < y || y < x {
                assert_eq!(ieee::max64(b, c), x.max(y).to_bits());
                assert_eq!(ieee::min64(b, c), x.min(y).to_bits());
            }
        }
        if !x.is_nan() {
            assert_eq!(
                f64::from_bits(ieee::clamp64(b, (-1.0f64).to_bits(), 1.0f64.to_bits())),
                x.clamp(-1.0, 1.0)
            );
        }
    }
    assert_eq!(ieee::max64(f64::NAN.to_bits(), 2.0f64.to_bits()), 2.0f64.to_bits());
    assert_eq!(ieee::min64(3.0f64.to_bits(), f64::NAN.to_bits()), 3.0f64.to_bits());
}

#[test]
fn text_search_and_trim() {
    assert!(text::contains("BP_Elite_C", "Elite"));
    assert!(!text::contains("BP_Elite_C", "elite"));
    assert!(text::contains("abc", ""));
    assert!(text::contains_any("xyz", &vec!["q", "yz"]));
    assert!(text::starts_with("Default__X", "Default__"));
    assert!(!text::starts_with("X", "Default__"));
    assert!(text::same("a", "a"));
    assert!(!text::same("a", "ab"));
    assert_eq!(text::trim(" \t x y \u{3000}\n"), "x y");
    assert_eq!(text::trim_start("  x "), "x ");
    assert_eq!(text::trim("\u{a0}"), "");
    assert_eq!(text::lower("A30_Mission \u{c4}"), "a30_mission \u{c4}");
    for c in ['\u{9}', '\u{d}', ' ', '\u{85}', '\u{2003}', '\u{200b}', 'x'] {
        assert_eq!(text::is_blank(c), c.is_whitespace());
    }
}

#[test]
fn text_lines_match_the_standard_split() {
    for s in ["", "a", "a\n", "a\nb", "a\r\nb\r", "\n\n", "x\ry\n", "\r\n"] {
        let want: Vec<String> = s.lines().map(|l| l.to_string()).collect();
        assert_eq!(text::lines(s), want);
    }
}

#[test]
fn text_numbers_and_padding() {
    assert_eq!(text::decimal(0), "0");
    assert_eq!(text::decimal(u64::MAX), u64::MAX.to_string());
    assert_eq!(text::signed_decimal(-17), "-17");
    assert_eq!(text::signed_decimal(i32::MIN), i32::MIN.to_string());
    assert_eq!(text::pad_right("ab", 4), "ab  ");
    assert_eq!(text::pad_left("ab", 4), "  ab");
    assert_eq!(text::pad_left("abcde", 4), "abcde");
    assert!(text::is_before("Elite", "Grunt"));
    assert!(text::is_before("", "a"));
    assert!(!text::is_before("b", "a"));
    assert!(!text::is_before("a", "a"));
    assert!(text::shorter_than("\u{e9}\u{e9}", 5));
    assert!(!text::shorter_than("\u{e9}\u{e9}", 4));
}

#[test]
fn text_utf16_matches_the_standard_encoding() {
    for s in ["", "ImGui.ToggleInput", "\u{e9}\u{20ac}\u{1f600}"] {
        let mut want: Vec<u16> = s.encode_utf16().collect();
        want.push(0);
        assert_eq!(text::wide(s), want);
    }
}

#[test]
fn text_characters_and_pieces() {
    let v = text::chars_of("h\u{e9}y");
    assert_eq!(v, vec!['h', '\u{e9}', 'y']);
    assert_eq!(text::string_of(&v, 1, 3), "\u{e9}y");
    assert_eq!(text::owned("q"), "q");
}

#[test]
fn modules_and_addresses() {
    let mut s = mem::Modules::new();
    mem::init(&mut s, 0x1000);
    assert_eq!(mem::base(&s), 0x1000);
    assert_eq!(mem::at(&s, 0x20), 0x1020);
    assert_eq!(mem::ptr(&s, 0x20), 0x1020);
    assert_eq!(mem::func(&s, 0x20), 0x1020);
    assert_eq!(mem::sim_base(&mut s, 0), 0);
    assert_eq!(mem::sim_base(&mut s, 0x9000), 0x9000);
    assert_eq!(mem::sim_base(&mut s, 0x7000), 0x9000);
}

#[test]
fn patched_pointer_can_be_patched_back() {
    let mut m = Memory::new();
    put(&mut m, 0x800, 0x1111, 8);
    assert_eq!(mem::patch_ptr(&mut m, 0x800, 0x2222), Some(0x1111));
    assert_eq!(m.read_u64(0x800), Some(0x2222));
    assert_eq!(mem::patch_ptr(&mut m, 0x800, 0x1111), Some(0x2222));
    assert_eq!(m.read_u64(0x800), Some(0x1111));
    assert_eq!(mem::patch_ptr(&mut m, 0x900, 1), None);
}

#[test]
fn names_decode() {
    let mut w = World::new();
    let id = w.name("GetCameraLocation") as u32;
    assert_eq!(name_by_id(&mut w.m, BASE, 0), Some("None".to_string()));
    assert_eq!(name_by_id(&mut w.m, BASE, id), Some("GetCameraLocation".to_string()));
    // a wide name
    let wide = w.names;
    let at = BLOCK + 2 * wide;
    put(&mut w.m, at, (3 << 6) | 1, 2);
    put(&mut w.m, at + 2, 'n' as u64, 2);
    put(&mut w.m, at + 4, 0x20ac, 2);
    put(&mut w.m, at + 6, 'x' as u64, 2);
    assert_eq!(name_by_id(&mut w.m, BASE, wide as u32), Some("n\u{20ac}x".to_string()));
    // malformed bytes are replaced
    let bad = wide + 8;
    put(&mut w.m, BLOCK + 2 * bad, 2 << 6, 2);
    put(&mut w.m, BLOCK + 2 * bad + 2, 0x41ff, 2);
    assert_eq!(name_by_id(&mut w.m, BASE, bad as u32), Some("\u{fffd}A".to_string()));
    // surrogates stand in pairs; one that does not is replaced
    let pairs = bad + 8;
    let units = [0xd83du64, 0xde00, 0xd83d, 0x41, 0xde00, 0xd83d, 0xd83d, 0xde00, 0xd83d];
    put(&mut w.m, BLOCK + 2 * pairs, (9 << 6) | 1, 2);
    for (i, u) in units.iter().enumerate() {
        put(&mut w.m, BLOCK + 2 * pairs + 2 + 2 * i as u64, *u, 2);
    }
    assert_eq!(
        name_by_id(&mut w.m, BASE, pairs as u32),
        Some("\u{1f600}\u{fffd}A\u{fffd}\u{fffd}\u{1f600}\u{fffd}".to_string())
    );
}

#[test]
fn names_that_do_not_exist() {
    let mut w = World::new();
    put(&mut w.m, BASE + FNAMEPOOL + NP_BLOCKS + 8, 0, 8);
    assert_eq!(name_by_id(&mut w.m, BASE, 0x1_0000), Some(String::new()));
    assert_eq!(name_by_id(&mut w.m, BASE, 0x2_0000), None);
    put(&mut w.m, BLOCK + 0x100, 0, 2);
    assert_eq!(name_by_id(&mut w.m, BASE, 0x80), Some(String::new()));
    assert_eq!(obj_name(&mut w.m, BASE, 0), Some(String::new()));
}

#[test]
fn object_table_slots() {
    let mut w = World::new();
    let a = w.object("A", 0);
    let b = w.object("B", 0);
    assert_eq!(num_elements(&mut w.m, BASE), Some(2));
    assert_eq!(num_chunks(&mut w.m, BASE), Some(1));
    assert_eq!(object_at(&mut w.m, BASE, 0), Some(a));
    assert_eq!(object_at(&mut w.m, BASE, 1), Some(b));
    assert_eq!(object_at(&mut w.m, BASE, -1), Some(0));
    assert_eq!(object_at(&mut w.m, BASE, 0x1_0000), Some(0));
    assert_eq!(object_at(&mut w.m, BASE, 2), None);
    assert_eq!(obj_name(&mut w.m, BASE, b), Some("B".to_string()));
}

#[test]
fn classes_inherit() {
    let mut w = World::new();
    let meta = w.object("Class", 0);
    let actor = w.class("Actor", meta, 0);
    let pawn = w.class("Pawn", meta, actor);
    let elite = w.class("BP_Elite_C", meta, pawn);
    let o = w.object("Elite_1", elite);
    assert_eq!(class_of(&mut w.m, o), Some(elite));
    assert_eq!(class_of(&mut w.m, 0), Some(0));
    assert_eq!(super_of(&mut w.m, pawn), Some(actor));
    assert_eq!(is_a(&mut w.m, elite, elite), Some(true));
    assert_eq!(is_a(&mut w.m, elite, actor), Some(true));
    assert_eq!(is_a(&mut w.m, actor, elite), Some(false));
    assert_eq!(class_chain_has(&mut w.m, BASE, elite, "Pawn"), Some(true));
    assert_eq!(class_chain_has(&mut w.m, BASE, actor, "Pawn"), Some(false));
    assert_eq!(is_a(&mut w.m, 0xdead, actor), None);
}

#[test]
fn functions_are_found_in_the_nearest_class() {
    let mut w = World::new();
    let meta = w.object("Class", 0);
    let fmeta = w.object("Function", meta);
    let actor = w.class("Actor", meta, 0);
    let pawn = w.class("Pawn", meta, actor);
    let far = w.function("Jump", fmeta, actor, 8);
    let near = w.function("Jump", fmeta, pawn, 16);
    let hide = w.function("Hide", fmeta, actor, 1);
    assert_eq!(find_function(&mut w.m, BASE, pawn, "Jump"), Some(near));
    assert_eq!(find_function(&mut w.m, BASE, actor, "Jump"), Some(far));
    assert_eq!(find_function(&mut w.m, BASE, pawn, "Hide"), Some(hide));
    assert_eq!(find_function(&mut w.m, BASE, pawn, "Fly"), Some(0));
    let (found, whole) = probe_functions(&mut w.m, BASE, &vec!["Jum"]);
    assert!(whole);
    assert_eq!(found.len(), 2);
    assert_eq!(found[0].owner, "Actor");
    assert_eq!(found[1].owner, "Pawn");
    assert_eq!(found[1].name, "Jump");
    assert_eq!(found[1].parms_size, 16);
}

#[test]
fn searches_find_the_first_live_object() {
    let mut w = World::new();
    let meta = w.object("Class", 0);
    let pc = w.class("MeteoritePlayerController", meta, 0);
    let cdo = w.object("Default__MeteoritePlayerController", pc);
    let template = w.object("PC_GEN_VARIABLE", pc);
    let flagged = w.object("PC_flagged", pc);
    put(&mut w.m, flagged + 8, 0x10, 4);
    assert_eq!(find_player_controller(&mut w.m, BASE), Some(0));
    assert_eq!(ue::verify(&mut w.m, BASE), Some(true));
    let live = w.object("PC_0", pc);
    assert_eq!(find_player_controller(&mut w.m, BASE), Some(live));
    assert_eq!(find_live_by_class(&mut w.m, BASE, "PlayerController"), Some(live));
    assert_eq!(find_live_by_class(&mut w.m, BASE, "CameraManager"), Some(0));
    assert_eq!(is_live_of_class(&mut w.m, BASE, template, "PlayerController"), Some(false));
    assert_eq!(is_live_of_class(&mut w.m, BASE, live, "PlayerController"), Some(true));
    assert_eq!(
        find_cdo(&mut w.m, BASE, "Default__MeteoritePlayerController"),
        Some(cdo)
    );
    assert_eq!(find_class(&mut w.m, BASE, "PlayerContr"), Some(pc));
    assert_eq!(find_class(&mut w.m, BASE, "Nothing"), Some(0));
    // a class that is a default object or an archetype is none
    for flag in [0x10, 0x20] {
        put(&mut w.m, pc + 8, flag, 4);
        assert_eq!(find_class(&mut w.m, BASE, "PlayerContr"), Some(0));
    }
    put(&mut w.m, pc + 8, 1, 4);
    assert_eq!(find_class(&mut w.m, BASE, "PlayerContr"), Some(pc));
}

#[test]
fn properties_of_a_class_come_before_inherited_ones() {
    let mut w = World::new();
    let meta = w.object("Class", 0);
    let actor = w.class("Actor", meta, 0);
    let pawn = w.class("Pawn", meta, actor);
    let mut property = |class: u64, at: u64, name: &str, offset: u64| {
        let id = w.name(name);
        let first = w.m.read_u64(class + 0x50).unwrap();
        put(&mut w.m, at + 0x18, first, 8);
        put(&mut w.m, at + 0x20, id, 4);
        put(&mut w.m, at + 0x44, offset, 4);
        put(&mut w.m, class + 0x50, at, 8);
    };
    property(actor, 0x9000, "Owner", 0x30);
    property(pawn, 0x9100, "Health", 0x80);
    property(pawn, 0x9200, "Owner", 0x90);
    assert_eq!(
        list_properties(&mut w.m, BASE, pawn),
        Some(vec![
            ("Owner".to_string(), 0x90),
            ("Health".to_string(), 0x80),
            ("Owner".to_string(), 0x30)
        ])
    );
    assert_eq!(property_offset(&mut w.m, BASE, pawn, "Owner"), Some(0x90));
    assert_eq!(property_offset(&mut w.m, BASE, actor, "Owner"), Some(0x30));
    assert_eq!(property_offset(&mut w.m, BASE, actor, "Health"), None);
    assert_eq!(list_properties(&mut w.m, BASE, 0), Some(vec![]));
    assert_eq!(list_properties(&mut w.m, BASE, 0xdead), None);
}

#[test]
fn verify_needs_names_and_objects() {
    let mut w = World::new();
    assert_eq!(ue::verify(&mut w.m, BASE), Some(false));
    let mut empty = Memory::new();
    assert_eq!(ue::verify(&mut empty, BASE), None);
    w.object("X", 0);
    assert_eq!(ue::verify(&mut w.m, BASE), Some(true));
    put(&mut w.m, BLOCK + 2, 'n' as u64, 1);
    assert_eq!(ue::verify(&mut w.m, BASE), Some(false));
}

#[test]
fn calls_by_name_have_five_outcomes() {
    let mut w = World::new();
    let meta = w.object("Class", 0);
    let fmeta = w.object("Function", meta);
    let cls = w.class("Pawn", meta, 0);
    let f = w.function("SetHidden", fmeta, cls, 1);
    let o = w.object("Pawn_1", cls);
    assert!(pe_call(&mut w.m, BASE, 0, "SetHidden", 1) == Call::NoObject);
    assert!(pe_call(&mut w.m, BASE, o, "Nope", 1) == Call::NotFound);
    assert!(pe_call(&mut w.m, BASE, o, "SetHidden", 8) == (Call::WrongSize { actual: 1 }));
    assert!(pe_call(&mut w.m, BASE, o, "SetHidden", 1) == Call::Fault);
    put(&mut w.m, VTABLE + 8 * PROCESSEVENT_SLOT, 0x7777, 8);
    let ready = Call::Ready { func: f, entry: Some(0x7777) };
    assert!(pe_call(&mut w.m, BASE, o, "SetHidden", 1) == ready);
    assert!(pe_call(&mut w.m, BASE, o, "SetHidden", ANY_SIZE) == ready);
    assert!(ready.made());
    assert!(!Call::NotFound.made());
    assert_eq!(process_event(&mut w.m, o, f), Some(Some(0x7777)));
    assert_eq!(process_event(&mut w.m, o, 0), Some(None));
    put(&mut w.m, o, 0, 8);
    assert_eq!(process_event(&mut w.m, o, f), Some(None));
}
