//! The simulation's tables, units, cheats, and playing as an AI unit.

use huragok::cmd::{Cmd, Queue, take_all};
use huragok::hooks::sim_seed;
use huragok::hooks::sim_seed::{Install, SEED_BUILDER_RVA, SeedHook};
use huragok::memory::Memory;
use huragok::possess;
use huragok::possess::{Control, Links, Possess, Tick};
use huragok::simtime::ai;
use huragok::simtime::clock;
use huragok::simtime::code;
use huragok::simtime::globals;
use huragok::simtime::lookup;
use huragok::simtime::lookup::{Lookup, Roots, Wanted};
use huragok::simtime::objects;
use huragok::simtime::objects::{NO_HANDLE, SaltOffset};
use huragok::simtime::player;
use huragok::simtime::player::ElementDump;
use huragok::simtime::unit;
use huragok::simtime::weapon;
use huragok::simtime::weapon::WeaponLine;
use huragok::simunit;
use huragok::simunit::{Cheats, Invuln};
use huragok::state::CamData;

const TLS: u64 = 0x10_0000;
const PCG: u64 = 0x20_0000;
const PLAYERS: u64 = 0x30_0000;
const PLAYER_TABLE: u64 = 0x31_0000;
const OBJECTS: u64 = 0x40_0000;
const TABLE: u64 = 0x41_0000;
const CONTROLS: u64 = 0x50_0000;
const AI: u64 = 0x60_0000;
const AI_TABLE: u64 = 0x61_0000;
const BODIES: u64 = 0x100_0000;
const SIM: u64 = 0x7000_0000;
const FRESH: u64 = 0x9000_0000;
const RELAY: u64 = 0xa000_1234;

fn put(m: &mut Memory, a: u64, v: u64, n: u64) {
    for i in 0..n {
        m.load(a.wrapping_add(i), (v >> (8 * i)) as u8);
    }
}

fn zero(m: &mut Memory, a: u64, n: u64) {
    for i in 0..n {
        m.load(a + i, 0);
    }
}

fn body(index: u64) -> u64 {
    BODIES + index * 0x1000
}

fn bits(x: f32) -> u64 {
    x.to_bits() as u64
}

/// A unit in a record of the object table.
fn add_unit(m: &mut Memory, index: u64, salt: u64, pos: [f32; 3]) -> u32 {
    let b = body(index);
    zero(m, b, 0x800);
    put(m, b + 0x174, 0x30, 2);
    put(m, b + 0x176, 0x600, 2);
    for (i, p) in pos.iter().enumerate() {
        put(m, b + 0x44 + 4 * i as u64, bits(*p), 4);
    }
    put(m, b + 0x1ac, 0xffff_ffff, 4);
    put(m, b + 0x1bc, 0xffff, 2);
    let rec = TABLE + index * 0x18;
    zero(m, rec, 0x18);
    put(m, rec, salt, 2);
    put(m, rec + 0x10, b, 8);
    ((salt << 16) | index) as u32
}

/// Two units, the first of them the player's.
fn sim() -> Memory {
    let mut m = Memory::new();
    zero(&mut m, TLS, 0x400);
    put(&mut m, TLS + 0x118, PCG, 8);
    put(&mut m, TLS + 0x30, PLAYERS, 8);
    put(&mut m, TLS + 0x20, OBJECTS, 8);
    put(&mut m, TLS + 0xb8, CONTROLS, 8);
    put(&mut m, TLS + 0x28, AI, 8);
    zero(&mut m, PCG, 0x100);
    put(&mut m, PCG + 0xb8, 0xcafe_0000, 4);
    put(&mut m, PCG + 0xbc, 0xffff_ffff, 4);
    put(&mut m, PCG + 0xc0, 0xffff_ffff, 4);
    put(&mut m, PCG + 0xc4, 0xffff_ffff, 4);
    put(&mut m, PCG + 0x74, 1, 4);
    put(&mut m, PLAYERS + 0x50, PLAYER_TABLE, 8);
    zero(&mut m, PLAYER_TABLE, 0x4b0);
    put(&mut m, OBJECTS + 0x50, TABLE, 8);
    zero(&mut m, CONTROLS, 0x400);
    put(&mut m, AI + 0x50, AI_TABLE, 8);
    let chief = add_unit(&mut m, 0, 0xe001, [0.0, 0.0, 0.0]);
    let grunt = add_unit(&mut m, 1, 0xe002, [3.0, 4.0, 0.0]);
    put(&mut m, PLAYER_TABLE + 0x28, chief as u64, 4);
    put(&mut m, CONTROLS + 0x198 + 0x80, chief as u64, 4);
    // the grunt's AI is actor 2, on team 3
    zero(&mut m, AI_TABLE + 2 * 0xd10, 0xd10);
    put(&mut m, AI_TABLE + 2 * 0xd10 + 0x32c, 5, 4);
    put(&mut m, body(1) + 0x1ac, 0xbeef_0002, 4);
    put(&mut m, body(1) + 0x1ba, 3, 2);
    put(&mut m, PLAYER_TABLE + 0xac, 1, 1);
    assert_eq!(grunt, 0xe002_0001);
    m
}

const CHIEF: u32 = 0xe001_0000;
const GRUNT: u32 = 0xe002_0001;

/// The simulation module: turn limits and the seed builder.
fn add_module(m: &mut Memory) {
    put(m, SIM + code::TURN_CLAMP_POS_RVA, bits(2.0), 4);
    put(m, SIM + code::TURN_CLAMP_NEG_RVA, bits(-2.0), 4);
    let prologue: Vec<u8> =
        vec![0x40, 0x53, 0x56, 0x57, 0x41, 0x56, 0x41, 0x57, 0x48, 0x83, 0xec, 0x20, 0x48, 0x8b, 0xf1];
    m.load_bytes(SIM + SEED_BUILDER_RVA, &prologue);
    zero(m, FRESH, 64);
}

/// Every byte that the image holds in the ranges that the tests use.
fn picture(m: &Memory) -> Vec<(u64, Option<u8>)> {
    let mut out = Vec::new();
    let ranges = [
        (TLS, 0x400),
        (PCG, 0x100),
        (PLAYER_TABLE, 0x4b0),
        (TABLE, 0x60),
        (CONTROLS, 0x400),
        (AI_TABLE + 2 * 0xd10, 0xd10),
        (body(0), 0x800),
        (body(1), 0x800),
        (SIM + code::TURN_CLAMP_POS_RVA, 4),
        (SIM + code::TURN_CLAMP_NEG_RVA, 4),
        (SIM + SEED_BUILDER_RVA, 15),
    ];
    for (a, n) in ranges {
        for i in 0..n {
            out.push((a + i, m.peek(a + i)));
        }
    }
    out
}

fn links() -> Links {
    Links { tls: TLS, sim_base: SIM, fresh: FRESH, relay: RELAY, pawn: 0x5555 }
}

#[test]
fn handles_and_bodies() {
    let mut m = sim();
    assert_eq!(objects::object_table(&mut m, TLS), TABLE);
    assert_eq!(objects::player_unit_slot(&mut m, TLS), PLAYER_TABLE + 0x28);
    assert_eq!(objects::player_unit_handle(&mut m, TLS), Some(CHIEF));
    assert_eq!(objects::player_unit(&mut m, TLS), body(0));
    assert_eq!(objects::object_body(&mut m, TLS, GRUNT), body(1));
    assert_eq!(objects::object_body(&mut m, TLS, NO_HANDLE), 0);
    assert_eq!(objects::object_body(&mut m, 0, GRUNT), 0);
    assert!(objects::handle_live(&mut m, TLS, GRUNT));
    assert!(!objects::handle_live(&mut m, TLS, 0xe003_0001));
    assert!(!objects::handle_live(&mut m, TLS, NO_HANDLE));
    assert_eq!(objects::player_sim_pos(&mut m, TLS), Some([0, 0, 0]));
    put(&mut m, PLAYER_TABLE + 0x28, 0xffff_ffff, 4);
    assert_eq!(objects::player_unit_handle(&mut m, TLS), None);
}

#[test]
fn bare_index_becomes_a_full_live_handle() {
    let mut m = sim();
    assert_eq!(objects::normalize_to_full_handle(&mut m, TLS, 1), Some(GRUNT));
    assert_eq!(objects::normalize_to_full_handle(&mut m, TLS, GRUNT), Some(GRUNT));
    put(&mut m, body(1) + 0x174, 0x31, 2);
    assert_eq!(objects::normalize_to_full_handle(&mut m, TLS, 1), None);
    assert_eq!(objects::normalize_to_full_handle(&mut m, TLS, 9), None);
}

#[test]
fn nearest_unit_wins() {
    let mut m = sim();
    add_unit(&mut m, 2, 0xe003, [1.0, 0.0, 0.0]);
    let at = objects::unit_positions(&mut m, TABLE, objects::BODY_POS, false);
    assert_eq!(at.len(), 3);
    assert_eq!(at[1], (1, [bits(3.0), bits(4.0), 0]));
    // measured from (3, 4, 0)
    let d2: Vec<u32> =
        vec![25.0f32.to_bits(), 0.0f32.to_bits(), 20.0f32.to_bits()];
    let root: Vec<u32> = vec![5.0f32.to_bits(), 0, 20.0f32.sqrt().to_bits()];
    let mut cal = SaltOffset::new();
    assert_eq!(
        objects::unit_handle_near(&mut m, TLS, &mut cal, objects::BODY_POS, false, &d2, &root),
        Some((GRUNT, 0))
    );
    assert_eq!(cal.known, Some(0));
    let squared: Vec<u32> = vec![25.0f32.to_bits(), 0, 20.0f32.to_bits()];
    assert_eq!(
        objects::unit_handle_near_pos(&mut m, TLS, &d2, &root, &squared),
        Some((GRUNT, 0, 3))
    );
    assert_eq!(objects::unit_handle_near_pos(&mut m, 0, &d2, &root, &squared), None);
}

#[test]
fn salt_offset_is_found_once_and_kept() {
    let mut m = sim();
    let mut cal = SaltOffset::new();
    assert_eq!(objects::salt_off(&mut m, TLS, &mut cal), Some(0));
    put(&mut m, TABLE, 0, 2);
    put(&mut m, TABLE + 6, 0xe001, 2);
    assert_eq!(objects::salt_off(&mut m, TLS, &mut cal), Some(0));
    let mut again = SaltOffset::new();
    assert_eq!(objects::salt_off(&mut m, TLS, &mut again), Some(6));
    let mut never = SaltOffset::new();
    put(&mut m, TABLE + 6, 0, 2);
    assert_eq!(objects::salt_off(&mut m, TLS, &mut never), None);
}

#[test]
fn body_leads_back_to_its_handle() {
    let mut m = sim();
    let mut cal = SaltOffset::new();
    assert_eq!(objects::handle_for_body(&mut m, TLS, &mut cal, body(1)), Some(GRUNT));
    assert_eq!(objects::handle_for_body(&mut m, TLS, &mut cal, 0), None);
    assert_eq!(objects::handle_for_body(&mut m, TLS, &mut cal, 0x1234), None);
}

#[test]
fn player_records() {
    let mut m = sim();
    assert_eq!(player::player_team_byte_slot(&mut m, TLS), PLAYER_TABLE + 0xac);
    assert_eq!(player::player_team_byte(&mut m, TLS), Some(1));
    assert_eq!(player::set_player_team_byte(&mut m, TLS, -3), Some(1));
    assert_eq!(player::player_team_byte(&mut m, TLS), Some(-3));
    player::restore_player_team_byte(&mut m, TLS, 1);
    assert_eq!(player::player_team_byte(&mut m, TLS), Some(1));
    assert_eq!(player::control_unit_slot(&mut m, TLS), CONTROLS + 0x198 + 0x80);
    assert_eq!(player::set_control_unit_handle(&mut m, TLS, GRUNT), Some(CHIEF));
    player::assert_control_unit_handle(&mut m, TLS, CHIEF);
    assert_eq!(player::set_control_unit_handle(&mut m, TLS, GRUNT), Some(CHIEF));
    assert_eq!(player::set_player_unit_handle(&mut m, TLS, GRUNT), Some(CHIEF));
    assert_eq!(player::local_player_index(&mut m, TLS), Some(0));
    assert_eq!(
        player::observer_handles(&mut m, TLS),
        [0xcafe_0000, NO_HANDLE, NO_HANDLE, NO_HANDLE]
    );
    assert_eq!(player::player_team_byte(&mut m, 0), None);
    put(&mut m, PCG + 0x74, 0xffff_ffff, 4);
    assert_eq!(player::control_unit_slot(&mut m, TLS), 0);
}

#[test]
fn look_angles_are_taken_only_where_plausible() {
    let mut m = sim();
    let e = CONTROLS + 0x198;
    player::drive_control_look(&mut m, TLS, [1.5f32.to_bits(), (-0.5f32).to_bits(), 0]);
    assert_eq!(
        player::player_look_angles(&mut m, TLS),
        Some((1.5f32.to_bits(), (-0.5f32).to_bits()))
    );
    match player::dump_control_element(&mut m, TLS) {
        ElementDump::Read(c) => {
            assert_eq!(c.base, e);
            assert_eq!(c.unit, CHIEF);
            assert_eq!(c.floats[4], 1.5f32.to_bits());
        }
        _ => panic!("the element can be read"),
    }
    put(&mut m, e + 0x98, bits(2.0), 4);
    assert_eq!(player::player_look_angles(&mut m, TLS), None);
    put(&mut m, e + 0x98, bits(f32::NAN), 4);
    assert_eq!(player::player_look_angles(&mut m, TLS), None);
    assert!(matches!(player::dump_control_element(&mut m, 0), ElementDump::Unresolved));
}

#[test]
fn unit_fields() {
    let mut m = sim();
    assert_eq!(unit::unit_team(&mut m, TLS, GRUNT), Some(3));
    unit::set_unit_team(&mut m, TLS, GRUNT, 0x0104);
    assert_eq!(unit::unit_team(&mut m, TLS, GRUNT), Some(0x0104));
    assert_eq!(unit::set_unit_ai_datum(&mut m, TLS, GRUNT, NO_HANDLE), Some(0xbeef_0002));
    assert_eq!(unit::set_unit_ai_datum(&mut m, TLS, GRUNT, 0xbeef_0002), Some(NO_HANDLE));
    unit::set_unit_owner(&mut m, TLS, GRUNT, 0);
    assert_eq!(m.read_u16(body(1) + 0x1bc), Some(0));
    assert_eq!(unit::unit_pos(&mut m, TLS, GRUNT), Some([3.0f32.to_bits(), 4.0f32.to_bits(), 0]));
    assert_eq!(unit::unit_pos(&mut m, TLS, 0xe009_0009), None);
    put(&mut m, body(1) + 0x50, bits(1.0), 4);
    assert_eq!(unit::body_forward(&mut m, TLS, GRUNT), Some([1.0f32.to_bits(), 0, 0]));
    put(&mut m, body(1) + 0x54, bits(f32::INFINITY), 4);
    assert_eq!(unit::body_forward(&mut m, TLS, GRUNT), None);
    put(&mut m, body(1) + 0x610, bits(0.5), 4);
    put(&mut m, body(1) + 0x628, bits(0.25), 4);
    assert_eq!(
        unit::body_vitality(&mut m, body(1)),
        (0.5f32.to_bits(), 0.25f32.to_bits())
    );
    assert_eq!(unit::body_vitality(&mut m, 0x1), (0x7fc0_0000, 0x7fc0_0000));
    // a body with one record has no shield
    put(&mut m, body(1) + 0x174, 0x18, 2);
    assert_eq!(unit::body_vitality(&mut m, body(1)), (0.5f32.to_bits(), 0x7fc0_0000));
    put(&mut m, body(1) + 0x174, 0, 2);
    assert_eq!(unit::body_vitality(&mut m, body(1)), (0x7fc0_0000, 0x7fc0_0000));
}

#[test]
fn driving_a_unit_marks_it_for_update() {
    let mut m = sim();
    unit::drive_unit_aim(&mut m, TLS, GRUNT, [1, 2, 3]);
    for o in [0x1d4, 0x1f8, 0x21c, 0x204] {
        assert_eq!(m.read_triple(body(1) + o), Some([1, 2, 3]));
    }
    assert_eq!(m.read_triple(body(1) + 0x50), Some([0, 0, 0]));
    assert_eq!(m.read_u8(TABLE + 0x18 + 2), Some(2));
    put(&mut m, TABLE + 0x18 + 2, 0x40, 1);
    unit::drive_unit_velocity(&mut m, TLS, GRUNT, 7, 8);
    assert_eq!(m.read_triple(body(1) + 0x68), Some([7, 8, 0]));
    assert_eq!(m.read_u8(TABLE + 0x18 + 2), Some(0x42));
    assert_eq!(
        unit::body_facing_diag(&mut m, TLS, GRUNT),
        Some(([0, 0, 0], [1, 2, 3], [1, 2, 3]))
    );
    // a body that is no unit is left alone
    put(&mut m, body(1) + 0x174, 0, 2);
    unit::drive_unit_velocity(&mut m, TLS, GRUNT, 9, 9);
    assert_eq!(m.read_triple(body(1) + 0x68), Some([7, 8, 0]));
}

#[test]
fn third_person_animation_is_restored_once() {
    let mut m = sim();
    put(&mut m, body(1) + 0xdc, 0x1101, 4);
    put(&mut m, body(1) + 0xe4, 0x8000, 2);
    put(&mut m, body(1) + 0xcc, 7, 4);
    unit::restore_tp_animation(&mut m, TLS, GRUNT);
    assert_eq!(unit::anim_diag(&mut m, TLS, GRUNT), Some((0x1001, 0xffff, 7)));
    unit::restore_tp_animation(&mut m, TLS, GRUNT);
    assert_eq!(unit::anim_diag(&mut m, TLS, GRUNT), Some((0x1001, 0xffff, 7)));
}

#[test]
fn clusters_of_near_units_are_distinct() {
    let mut m = sim();
    for i in 2..6 {
        add_unit(&mut m, i, 0xe010, [0.0, 0.0, 0.0]);
    }
    for (i, bsp, clu) in [(0u64, 0u64, 9u64), (1, 1, 5), (2, 1, 5), (3, 0xff, 4), (4, 1, 6), (5, 2, 7)] {
        put(&mut m, body(i) + 8, bsp, 1);
        put(&mut m, body(i) + 9, clu, 1);
    }
    put(&mut m, body(1) + 4, 0x1234, 4);
    assert_eq!(unit::object_cluster(&mut m, TLS, GRUNT), Some((1, 5, 0x1234)));
    let near = vec![false, true, true, true, true, false];
    assert_eq!(
        unit::collect_nearby_clusters(&mut m, TLS, GRUNT, &near, 32),
        vec![0x8000_0105, 0x8000_0106]
    );
    assert_eq!(
        unit::collect_nearby_clusters(&mut m, TLS, GRUNT, &near, 1),
        vec![0x8000_0105]
    );
    assert!(unit::collect_nearby_clusters(&mut m, TLS, NO_HANDLE, &near, 32).is_empty());
    // the table gives the order, and one place is kept for the unit's own cluster
    let near = vec![true, true, true, true, true, true];
    let collect = |m: &mut Memory, h: u32, max: usize| {
        unit::collect_nearby_clusters(m, TLS, h, &near, max)
    };
    assert_eq!(collect(&mut m, GRUNT, 1), vec![0x8000_0105]);
    assert_eq!(collect(&mut m, GRUNT, 2), vec![0x8000_0009, 0x8000_0105]);
    let all = vec![0x8000_0009, 0x8000_0105, 0x8000_0106, 0x8000_0207];
    assert_eq!(collect(&mut m, GRUNT, 32), all);
    assert_eq!(collect(&mut m, 0xe010_0005, 3), vec![0x8000_0009, 0x8000_0105, 0x8000_0207]);
    assert_eq!(collect(&mut m, 0xe010_0005, 4), all);
    assert!(unit::collect_nearby_clusters(&mut m, TLS, GRUNT, &near, 0).is_empty());
}

#[test]
fn anchor_moves_to_the_followed_unit() {
    let mut m = sim();
    put(&mut m, body(1) + 0x68, bits(2.5), 4);
    let a = unit::anchor_inputs(&mut m, TLS, CHIEF, GRUNT).unwrap();
    assert_eq!(a.follow, [3.0f32.to_bits(), 4.0f32.to_bits(), 0]);
    assert_eq!(a.velocity, (2.5f32.to_bits(), 0));
    assert_eq!(a.anchor, [0, 0, 0]);
    let to = [3.0f32.to_bits(), 4.0f32.to_bits(), 1.0f32.to_bits()];
    assert_eq!(unit::anchor_biped_to(&mut m, TLS, CHIEF, GRUNT, to, 77), Some(77));
    assert_eq!(unit::unit_pos(&mut m, TLS, CHIEF), Some(to));
    assert_eq!(unit::anchor_biped_to(&mut m, TLS, NO_HANDLE, GRUNT, to, 77), None);
}

#[test]
fn ai_state_and_detail() {
    let mut m = sim();
    assert_eq!(ai::ai_actor_base(&mut m, TLS, GRUNT), AI_TABLE + 2 * 0xd10);
    assert_eq!(ai::ai_actor_state_ptr(&mut m, TLS, GRUNT), AI_TABLE + 2 * 0xd10 + 0x32c);
    assert_eq!(ai::ai_state(&mut m, TLS, GRUNT), Some(5));
    assert_eq!(ai::set_ai_state(&mut m, TLS, GRUNT, 0), Some(5));
    assert_eq!(ai::ai_state(&mut m, TLS, GRUNT), Some(0));
    assert_eq!(ai::set_ai_state(&mut m, TLS, GRUNT, 5), Some(0));
    assert_eq!(ai::ai_state(&mut m, TLS, CHIEF), None);
    put(&mut m, AI_TABLE + 2 * 0xd10 + 0x88, 0x0301, 2);
    assert_eq!(ai::ai_lod(&mut m, TLS, GRUNT), Some((3, 1)));
    put(&mut m, TLS + 0x40, 0x70_0000, 8);
    put(&mut m, 0x70_000a, 12, 2);
    assert_eq!(ai::ai_full_detail_count(&mut m, TLS), Some(12));
    assert_eq!(ai::set_ai_full_detail_count(&mut m, TLS, 40), Some(12));
    assert_eq!(ai::set_ai_full_detail_count(&mut m, TLS, 12), Some(40));
    put(&mut m, TLS + 0x188, 0x71_0000, 8);
    zero(&mut m, 0x71_0000, 2 * 0x3c);
    put(&mut m, 0x71_0000 + 0x3c, 0xffff, 2);
    let seen = ai::ai_lod_observers(&mut m, TLS);
    assert_eq!(seen, vec![(0, [0, 0, 0]), (-1, [0, 0, 0])]);
}

#[test]
fn weapons_fire() {
    let mut m = sim();
    let rifle = add_unit(&mut m, 2, 0xe0aa, [0.0, 0.0, 0.0]);
    put(&mut m, body(1) + 0x33e, 1, 1);
    for s in 0..4 {
        put(&mut m, body(1) + 0x344 + 4 * s, 0xffff_ffff, 4);
    }
    put(&mut m, body(1) + 0x348, rifle as u64, 4);
    put(&mut m, TLS + 0x3e0, 0x72_0000, 8);
    put(&mut m, 0x72_0004, 8, 4);
    put(&mut m, body(2) + 0x29d, 0x01, 1);
    put(&mut m, body(2) + 0x2a0, 99, 2);
    assert!(weapon::unit_primary_trigger(&mut m, TLS, GRUNT));
    assert!(!weapon::unit_primary_trigger(&mut m, TLS, 0xe002_0002));
    assert_eq!(weapon::weapon_diag(&mut m, TLS, GRUNT), Some((rifle, 0, 1)));
    weapon::force_fire_shot(&mut m, TLS, GRUNT);
    assert_eq!(m.read_u8(body(2) + 0x29c), Some(1));
    assert_eq!(m.read_u16(body(2) + 0x2a0), Some(0));
    assert_eq!(m.read_u8(TABLE + 2 * 0x18 + 2), Some(2));
    let mut held = false;
    let f = weapon::drive_weapon_fire(&mut m, TLS, &mut held, GRUNT, true).unwrap();
    assert!(f.drove == Some(true) && f.edge && f.act_bit && held);
    assert_eq!(m.read_u8(body(2) + 0x29d), Some(0x81));
    let f = weapon::drive_weapon_fire(&mut m, TLS, &mut held, GRUNT, true).unwrap();
    assert!(!f.edge);
    let f = weapon::drive_weapon_fire(&mut m, TLS, &mut held, GRUNT, false).unwrap();
    assert!(f.drove == Some(false) && f.edge && !held);
    assert_eq!(m.read_u8(body(2) + 0x29d), Some(0x01));
    assert!(weapon::drive_weapon_fire(&mut m, 0, &mut held, GRUNT, true).is_none());
    let (b, lines) = weapon::diag_weapon(&mut m, TLS, GRUNT);
    assert_eq!(b, body(1));
    assert_eq!(lines.len(), 8);
    assert!(matches!(lines[0], WeaponLine::Slot(1)));
    assert!(matches!(lines[2], WeaponLine::Held { slot: 1, handle: 0xe0aa_0002 }));
    assert!(matches!(lines[5], WeaponLine::Active { handle: 0xe0aa_0002, .. }));
    assert!(matches!(lines[6], WeaponLine::Fields { word: 0, trigger: 1 }));
    assert!(matches!(lines[7], WeaponLine::Actions { index: 1, bits: 8, .. }));
    // no weapon in hand
    put(&mut m, body(1) + 0x33e, 0xff, 1);
    assert_eq!(weapon::weapon_diag(&mut m, TLS, GRUNT), None);
}

#[test]
fn clock_scale_reads_back() {
    let mut m = Memory::new();
    let t = 0x20_0000;
    zero(&mut m, t, 0x48);
    put(&mut m, t + 6, 60, 2);
    put(&mut m, t + 8, bits(1.0 / 60.0), 4);
    put(&mut m, t + 0x10, bits(1.0), 4);
    let stock = (1.0f32 / 60.0).to_bits();
    assert!(clock::apply(&mut m, t, 0.25f32.to_bits(), stock));
    assert_eq!(clock::read(&mut m, t), Some((60, stock, 0.25f32.to_bits())));
    put(&mut m, t + 8, bits(f32::NAN), 4);
    assert!(clock::pin_tick_length(&mut m, t, stock, false));
    assert_eq!(clock::read(&mut m, t), Some((60, stock, 0.25f32.to_bits())));
    put(&mut m, t + 8, bits(0.5), 4);
    assert!(clock::pin_tick_length(&mut m, t, stock, false));
    assert_eq!(m.read_u32(t + 8), Some(0.5f32.to_bits()));
    assert!(clock::pin_tick_length(&mut m, t, stock, true));
    assert_eq!(m.read_u32(t + 8), Some(stock));
    put(&mut m, t + 6, 0, 2);
    assert!(!clock::apply(&mut m, t, 0, stock));
    assert!(!clock::pin_tick_length(&mut m, t, stock, true));
    assert_eq!(clock::read(&mut m, 0), None);
}

#[test]
fn code_patches_are_restored() {
    let mut m = Memory::new();
    add_module(&mut m);
    let a = SIM + code::TEAM_SYNC_PATCH_RVA;
    put(&mut m, a, 0x74, 1);
    assert!(code::patch_team_sync(&mut m, SIM, true));
    assert_eq!(m.read_u8(a), Some(0xeb));
    assert!(!code::patch_team_sync(&mut m, SIM, true));
    assert!(code::patch_team_sync(&mut m, SIM, false));
    assert_eq!(m.read_u8(a), Some(0x74));
    assert!(!code::patch_team_sync(&mut m, 0, true));
    let mut saved = 0;
    code::set_turn_clamp(&mut saved, &mut m, SIM, (-20.0f32).to_bits());
    assert_eq!(saved, 2.0f32.to_bits());
    assert_eq!(m.read_u32(SIM + code::TURN_CLAMP_POS_RVA), Some(20.0f32.to_bits()));
    assert_eq!(m.read_u32(SIM + code::TURN_CLAMP_NEG_RVA), Some((-20.0f32).to_bits()));
    code::set_turn_clamp(&mut saved, &mut m, SIM, 30.0f32.to_bits());
    assert_eq!(saved, 2.0f32.to_bits());
    code::restore_turn_clamp(&mut saved, &mut m, SIM);
    assert_eq!(saved, 0);
    assert_eq!(m.read_u32(SIM + code::TURN_CLAMP_POS_RVA), Some(2.0f32.to_bits()));
    assert_eq!(m.read_u32(SIM + code::TURN_CLAMP_NEG_RVA), Some((-2.0f32).to_bits()));
}

#[test]
fn night_vision_turns_fully_back_off() {
    let mut m = Memory::new();
    let gg = 0x80_0000;
    let effects = 0x90_0000;
    let slot = 0xa0_0000;
    put(&mut m, gg + globals::GG_SKULLS, 0x5, 8);
    put(&mut m, SIM + globals::EFFECTS_RVA, effects, 8);
    put(&mut m, effects + 8, slot, 8);
    put(&mut m, slot + 0x8980, 0x10, 8);
    put(&mut m, slot + 0x8988, 0x20, 8);
    assert!(globals::set_night_vision(&mut m, gg, SIM, true));
    assert_eq!(m.read_u64(gg + globals::GG_SKULLS), Some(0x100_0000_0005));
    assert_eq!(m.read_u64(slot + 0x8980), Some(0x100_0000_0010));
    assert_eq!(m.read_u64(slot + 0x8988), Some(0x100_0000_0020));
    assert!(globals::set_night_vision(&mut m, gg, SIM, false));
    assert_eq!(m.read_u64(gg + globals::GG_SKULLS), Some(0x5));
    assert_eq!(m.read_u64(slot + 0x8980), Some(0x10));
    assert_eq!(m.read_u64(slot + 0x8988), Some(0x20));
    assert!(!globals::set_night_vision(&mut m, 0, SIM, true));
    assert!(globals::set_sim_skull(&mut m, gg, 63, true));
    assert_eq!(m.read_u64(gg + globals::GG_SKULLS), Some(0x8000_0000_0000_0005));
    assert!(globals::set_sim_skull(&mut m, gg, 0, false));
    assert_eq!(m.read_u64(gg + globals::GG_SKULLS), Some(0x8000_0000_0000_0004));
}

#[test]
fn mission_and_cluster_readout() {
    let mut m = Memory::new();
    let gg = 0x80_0000;
    put(&mut m, gg + 0x10, 2, 1);
    put(&mut m, gg + globals::GG_WON, 1, 1);
    assert_eq!(globals::mission_state(&mut m, gg), Some((2, 1)));
    assert_eq!(globals::mission_state(&mut m, 0), None);
    assert_eq!(globals::active_cluster_popcount(&mut m, gg), None);
    zero(&mut m, gg + globals::GG_ACTIVE_MASK, 0x400);
    put(&mut m, gg + globals::GG_ACTIVE_MASK, 0xffff_ffff, 4);
    put(&mut m, gg + globals::GG_ACTIVE_MASK + 0x3fc, 0x8000_0001, 4);
    put(&mut m, gg + globals::GG_SEED_MASK_A, 7, 4);
    put(&mut m, gg + globals::GG_SEED_MASK_B, 9, 4);
    assert_eq!(globals::active_cluster_popcount(&mut m, gg), Some((34, 7, 9)));
}

#[test]
fn roots_are_found_on_a_thread() {
    let mut m = Memory::new();
    let teb = 0xb0_0000;
    let array = 0xb1_0000;
    let block = 0xb2_0000;
    let gg = 0xb3_0000;
    let t = 0xb4_0000;
    put(&mut m, SIM + lookup::SIM_TLS_INDEX_RVA, 3, 4);
    put(&mut m, teb + 0x58, array, 8);
    put(&mut m, array + 24, block, 8);
    put(&mut m, block + 0x60, gg, 8);
    put(&mut m, block + 0x98, t, 8);
    put(&mut m, gg + 0x10, 1, 1);
    zero(&mut m, t, 0x14);
    put(&mut m, t + 6, 60, 2);
    put(&mut m, t + 8, bits(1.0 / 60.0), 4);
    put(&mut m, t + 0xc, 1000, 4);
    put(&mut m, t + 0x10, bits(1.0), 4);
    assert!(lookup::looks_like_game_time(&mut m, t));
    assert!(lookup::looks_like_game_globals(&mut m, gg));
    assert!(lookup::is_sim_tls_block(&mut m, block));
    assert!(!lookup::looks_like_game_time(&mut m, gg));
    assert!(!lookup::looks_like_game_globals(&mut m, 0x100));
    assert_eq!(lookup::tls_index(&mut m, SIM), Some(3));
    assert_eq!(lookup::tls_index(&mut m, 0), None);
    assert_eq!(lookup::read_thread_tls_block(&mut m, teb, 3), block);
    assert_eq!(lookup::read_thread_slot(&mut m, teb, 3, 0x60), gg);
    let tebs = Some(vec![0xdead_0000, teb]);
    assert_eq!(lookup::scan_slot(&mut m, SIM, &tebs, 0x98, Wanted::GameTime), t);
    assert_eq!(lookup::scan_slot(&mut m, SIM, &None, 0x98, Wanted::GameTime), 0);
    let mut r = Roots::new();
    assert!(lookup::sim_tls_block(&mut r, &mut m) == Lookup::Walk);
    assert_eq!(lookup::sim_tls_block_walked(&mut r, &mut m, SIM, &tebs), block);
    assert!(lookup::sim_tls_block(&mut r, &mut m) == Lookup::Done(block));
    assert!(lookup::game_globals(&mut r, &mut m) == Lookup::Walk);
    assert_eq!(lookup::game_globals_walked(&mut r, &mut m, SIM, &tebs), gg);
    assert!(lookup::game_globals(&mut r, &mut m) == Lookup::Done(gg));
    assert!(lookup::resolve_now(&r, &mut m) == Lookup::Walk);
    assert_eq!(lookup::resolve_now_walked(&mut r, &mut m, SIM, &tebs), t);
    assert!(lookup::resolve_now(&r, &mut m) == Lookup::Done(t));
    assert!(lookup::ptr(&mut r, &mut m) == Lookup::Done(t));
    // a stale root is dropped
    put(&mut m, gg + 0x10, 9, 1);
    assert!(lookup::game_globals(&mut r, &mut m) != Lookup::Done(gg));
}

#[test]
fn walks_are_rare() {
    let mut m = Memory::new();
    let mut r = Roots::new();
    let mut walks = 0;
    for _ in 0..90 {
        match lookup::ptr(&mut r, &mut m) {
            Lookup::Walk => {
                walks += 1;
                assert_eq!(lookup::ptr_walked(&mut r, &mut m, SIM, &None), 0);
            }
            Lookup::Done(p) => assert_eq!(p, 0),
        }
    }
    assert_eq!(walks, 3);
}

#[test]
fn invulnerability_is_held() {
    let mut m = sim();
    let mut c = Cheats::new();
    put(&mut m, body(0) + 0x128, 0x1001, 4);
    assert!(simunit::set_invuln(&mut c, &mut m, TLS, true) == Invuln::Applied);
    assert_eq!(m.read_u32(body(0) + 0x128), Some(0x1081));
    put(&mut m, body(0) + 0x128, 0x1001, 4);
    simunit::tick(&c, &mut m, TLS);
    assert_eq!(m.read_u32(body(0) + 0x128), Some(0x1081));
    assert!(simunit::set_invuln(&mut c, &mut m, TLS, false) == Invuln::Applied);
    assert_eq!(m.read_u32(body(0) + 0x128), Some(0x1001));
    simunit::tick(&c, &mut m, TLS);
    assert_eq!(m.read_u32(body(0) + 0x128), Some(0x1001));
    assert!(simunit::set_invuln(&mut c, &mut m, 0, true) == Invuln::Pending);
    assert!(simunit::set_invuln(&mut c, &mut m, 0, true) == Invuln::Silent);
    simunit::set_oneshot(&mut c, true);
    assert!(c.oneshot);
}

#[test]
fn one_shot_kills_finish_damaged_units() {
    let mut m = sim();
    zero(&mut m, TABLE + 0x30, 2046 * 0x18);
    add_unit(&mut m, 2, 0xe003, [0.0, 0.0, 0.0]);
    for i in 0..3 {
        put(&mut m, body(i) + 0x610, bits(1.0), 4);
        put(&mut m, body(i) + 0x628, bits(1.0), 4);
    }
    let vitality = |m: &mut Memory, i: u64| {
        (m.read_u32(body(i) + 0x610).unwrap(), m.read_u32(body(i) + 0x628).unwrap())
    };
    let full = (1.0f32.to_bits(), 1.0f32.to_bits());
    let half = (1.0f32.to_bits(), 0.5f32.to_bits());
    put(&mut m, body(0) + 0x628, bits(0.5), 4);
    put(&mut m, body(1) + 0x628, bits(0.5), 4);
    let mut c = Cheats::new();
    simunit::tick(&c, &mut m, TLS);
    assert_eq!(vitality(&mut m, 1), half);
    simunit::set_oneshot(&mut c, true);
    // without the player's unit nothing is killed
    simunit::tick(&c, &mut m, 0);
    assert_eq!(vitality(&mut m, 1), half);
    simunit::tick(&c, &mut m, TLS);
    assert_eq!(vitality(&mut m, 0), half);
    assert_eq!(vitality(&mut m, 1), (0, 0));
    assert_eq!(vitality(&mut m, 2), full);
    // an ally is spared, and so is a unit that the player owns
    put(&mut m, body(2) + 0x628, bits(0.5), 4);
    put(&mut m, body(2) + 0x1ba, 0x401, 2);
    simunit::tick(&c, &mut m, TLS);
    assert_eq!(vitality(&mut m, 2), half);
    put(&mut m, body(2) + 0x1ba, 0x402, 2);
    put(&mut m, body(2) + 0x1bc, 0, 2);
    simunit::tick(&c, &mut m, TLS);
    assert_eq!(vitality(&mut m, 2), half);
    put(&mut m, body(2) + 0x1bc, 0xffff, 2);
    put(&mut m, body(2) + 0x628, bits(1.0), 4);
    // a record that is not in use does not count, and is kept
    put(&mut m, body(2) + 0x626, 0xffff, 2);
    put(&mut m, body(2) + 0x628, bits(0.5), 4);
    simunit::tick(&c, &mut m, TLS);
    assert_eq!(vitality(&mut m, 2), half);
    put(&mut m, body(2) + 0x610, bits(0.75), 4);
    // invulnerability holds in a tick that kills
    put(&mut m, body(0) + 0x128, 0x1001, 4);
    c.invuln = true;
    simunit::tick(&c, &mut m, TLS);
    assert_eq!(vitality(&mut m, 2), (0, 0.5f32.to_bits()));
    assert_eq!(m.read_u32(body(0) + 0x128), Some(0x1081));
}

#[test]
fn killing_spares_unused_records() {
    let mut m = sim();
    let recs = body(1) + 0x600;
    put(&mut m, recs + 0x10, bits(1.0), 4);
    put(&mut m, recs + 0x18 + 0x0e, 0xffff, 2);
    put(&mut m, recs + 0x18 + 0x10, bits(1.0), 4);
    assert!(simunit::valid_unit(&mut m, body(1)));
    simunit::kill_unit(&mut m, body(1));
    assert_eq!(m.read_u32(recs + 0x10), Some(0));
    assert_eq!(m.read_u32(recs + 0x28), Some(1.0f32.to_bits()));
    assert!(!simunit::valid_unit(&mut m, 0));
    put(&mut m, body(1) + 0x174, 0x1800, 2);
    assert!(!simunit::valid_unit(&mut m, body(1)));
}

#[test]
fn seed_detour_installs_and_restores() {
    let mut m = Memory::new();
    add_module(&mut m);
    let target = SIM + SEED_BUILDER_RVA;
    let before = m.read_bytes(target, 15).unwrap();
    let mut h = SeedHook::new();
    assert!(sim_seed::install(&mut h, &mut m, 0, FRESH, RELAY) == Install::NoModule);
    assert!(sim_seed::install(&mut h, &mut m, SIM, 0, RELAY) == Install::NoTrampoline);
    assert!(sim_seed::install(&mut h, &mut m, SIM, FRESH, RELAY) == (Install::Done { target }));
    assert!(sim_seed::installed(&h));
    assert!(sim_seed::install(&mut h, &mut m, SIM, FRESH, RELAY) == Install::Already);
    let mut jump: Vec<u8> = vec![0xff, 0x25, 0, 0, 0, 0];
    jump.extend_from_slice(&RELAY.to_le_bytes());
    jump.push(0x90);
    assert_eq!(m.read_bytes(target, 15), Some(jump));
    let mut tramp = before.clone();
    tramp.extend_from_slice(&[0xff, 0x25, 0, 0, 0, 0]);
    tramp.extend_from_slice(&(target + 15).to_le_bytes());
    assert_eq!(m.read_bytes(FRESH, 29), Some(tramp));
    assert!(sim_seed::uninstall(&mut h, &mut m));
    assert_eq!(m.read_bytes(target, 15), Some(before));
    assert!(!sim_seed::uninstall(&mut h, &mut m));
    // the trampoline is used again
    assert!(sim_seed::install(&mut h, &mut m, SIM, 0, RELAY) == (Install::Done { target }));
    // an unexpected builder is not touched
    let mut other = Memory::new();
    add_module(&mut other);
    put(&mut other, target, 0x48, 1);
    let mut fresh = SeedHook::new();
    assert!(
        sim_seed::install(&mut fresh, &mut other, SIM, FRESH, RELAY) == (Install::Mismatch { target })
    );
    assert_eq!(other.read_u8(target), Some(0x48));
}

#[test]
fn seeds_are_published_and_added() {
    let mut m = sim();
    put(&mut m, body(1) + 8, 1, 1);
    put(&mut m, body(1) + 9, 37, 1);
    let mut h = SeedHook::new();
    let near = vec![false, true];
    sim_seed::update_seed(&mut h, &mut m, TLS, GRUNT, &near);
    assert_eq!(sim_seed::seed_count(&h), 0);
    sim_seed::set_widen(&mut h, true);
    assert!(sim_seed::widen(&h));
    sim_seed::update_seed(&mut h, &mut m, TLS, GRUNT, &near);
    assert_eq!(sim_seed::seed_count(&h), 1);
    assert_eq!(h.clusters[0], 0x8000_0125);
    let mask = 0xc0_0000;
    zero(&mut m, mask, 0x400);
    put(&mut m, mask + 9 * 4, 1, 4);
    sim_seed::relay(&mut h, &mut m, mask);
    assert_eq!(m.read_u32(mask + 9 * 4), Some(0x21));
    assert_eq!(sim_seed::fires(&h), 1);
    sim_seed::set_enabled(&mut h, false);
    assert!(!sim_seed::enabled(&h));
    zero(&mut m, mask, 0x400);
    sim_seed::relay(&mut h, &mut m, mask);
    assert_eq!(m.read_u32(mask + 9 * 4), Some(0));
    assert_eq!(sim_seed::fires(&h), 2);
    // in between two searches the published clusters stay
    for _ in 0..15 {
        sim_seed::update_seed(&mut h, &mut m, TLS, GRUNT, &vec![]);
        assert_eq!(sim_seed::seed_count(&h), 1);
    }
    put(&mut m, body(1) + 8, 0xff, 1);
    sim_seed::update_seed(&mut h, &mut m, TLS, GRUNT, &vec![]);
    assert_eq!(sim_seed::seed_count(&h), 0);
}

#[test]
fn calling_thread_is_not_suspended() {
    let all = vec![(7, 1), (7, 2), (8, 3), (7, 4)];
    assert_eq!(sim_seed::suspend_others(&all, 7, 2), vec![1, 4]);
}

#[test]
fn release_undoes_control() {
    let mut m = sim();
    add_module(&mut m);
    let before = picture(&m);
    let mut s = Possess::new();
    let mut q = Queue::new();
    let mut cam = CamData::new();
    cam.freecam = true;
    let mut clamp = 0;
    let mut hook = SeedHook::new();
    let r = possess::control(
        &mut s, &mut q, &mut cam, &mut m, links(), &mut clamp, &mut hook, 0x77, Some(GRUNT),
    );
    match r {
        Control::Bound(b) => {
            assert_eq!(b.braindead, Some(5));
            assert_eq!(b.old_ai, Some(0xbeef_0002));
            assert_eq!(b.team, Some(3));
            assert_eq!(b.old_team, Some(1));
            assert_eq!(b.old_player, Some(CHIEF));
            assert_eq!(b.old_control, Some(CHIEF));
        }
        _ => panic!("the grunt can be controlled"),
    }
    // control holds
    assert_eq!(objects::player_unit_handle(&mut m, TLS), Some(GRUNT));
    assert_eq!(m.read_u32(CONTROLS + 0x198 + 0x80), Some(GRUNT));
    assert_eq!(m.read_u32(body(1) + 0x1ac), Some(NO_HANDLE));
    assert_eq!(m.read_u32(AI_TABLE + 2 * 0xd10 + 0x32c), Some(0));
    assert_eq!(m.read_i16(body(1) + 0x1bc), Some(0));
    assert_eq!(player::player_team_byte(&mut m, TLS), Some(3));
    assert_eq!(m.read_u32(SIM + code::TURN_CLAMP_POS_RVA), Some(20.0f32.to_bits()));
    assert!(possess::control_active(&s) && possess::controlling(&s) && possess::follow_active(&s));
    assert!(!cam.freecam && s.third);
    assert_eq!(possess::possessed_team_name(&s, &mut m, TLS), Some("covenant"));
    // a tick writes the bindings again
    put(&mut m, PLAYER_TABLE + 0x28, CHIEF as u64, 4);
    put(&mut m, body(1) + 0x1ac, 0x1111_0001, 4);
    let lost = [0, 0, 0];
    let t = possess::control_tick(&mut s, &mut m, TLS, &mut hook, &vec![], lost, 0);
    assert!(t == (Tick::Held { pawn: 0x5555, drifted: false, report: true }));
    assert_eq!(objects::player_unit_handle(&mut m, TLS), Some(GRUNT));
    assert_eq!(m.read_u32(body(1) + 0x1ac), Some(NO_HANDLE));
    // and the key releases
    assert!(!possess::toggle(&mut s));
    assert!(s.releasing && !s.control && !s.follow);
    let own = possess::service(&mut s, &mut m, TLS, SIM, &mut clamp, &mut hook);
    assert_eq!(own, Some(CHIEF));
    assert_eq!(picture(&m), before);
    assert_eq!(clamp, 0);
    assert!(!hook.installed && s.cur_handle == NO_HANDLE && s.saved_player_team.is_none());
    assert_eq!(possess::service(&mut s, &mut m, TLS, SIM, &mut clamp, &mut hook), None);
    assert!(possess::toggle(&mut s));
}

/// The image after the grunt is taken over.
fn controlled(s: &mut Possess, m: &mut Memory, clamp: &mut u32, hook: &mut SeedHook) {
    let (mut q, mut cam) = (Queue::new(), CamData::new());
    let r = possess::control(s, &mut q, &mut cam, m, links(), clamp, hook, 0x77, Some(GRUNT));
    assert!(matches!(r, Control::Bound(_)));
}

#[test]
fn release_after_ticks_leaves_only_the_anchor() {
    let mut m = sim();
    add_module(&mut m);
    let before = picture(&m);
    let (mut s, mut clamp, mut hook) = (Possess::new(), 0, SeedHook::new());
    controlled(&mut s, &mut m, &mut clamp, &mut hook);
    for i in 1..4 {
        let to = [bits(i as f32) as u32, bits(4.0) as u32, bits(1.0) as u32];
        let t = possess::control_tick(&mut s, &mut m, TLS, &mut hook, &vec![], to, 7);
        assert!(matches!(t, Tick::Held { .. }));
        assert_eq!(m.read_triple(body(0) + 0x44), Some(to));
        assert_eq!(s.anchor_moved, 7);
    }
    possess::toggle(&mut s);
    assert_eq!(
        possess::service(&mut s, &mut m, TLS, SIM, &mut clamp, &mut hook),
        Some(CHIEF)
    );
    assert!(picture(&m) != before);
    for i in 0..3 {
        put(&mut m, body(0) + 0x44 + 4 * i, 0, 4);
    }
    assert_eq!(picture(&m), before);
}

#[test]
fn release_clears_the_owner_that_a_unit_had() {
    let mut m = sim();
    add_module(&mut m);
    put(&mut m, body(1) + 0x1bc, 3, 2);
    let before = picture(&m);
    let (mut s, mut clamp, mut hook) = (Possess::new(), 0, SeedHook::new());
    controlled(&mut s, &mut m, &mut clamp, &mut hook);
    possess::toggle(&mut s);
    possess::service(&mut s, &mut m, TLS, SIM, &mut clamp, &mut hook);
    assert_eq!(m.read_i16(body(1) + 0x1bc), Some(-1));
    put(&mut m, body(1) + 0x1bc, 3, 2);
    assert_eq!(picture(&m), before);
}

#[test]
fn release_spares_the_object_in_place_of_a_lost_unit() {
    let mut m = sim();
    add_module(&mut m);
    let (mut s, mut clamp, mut hook) = (Possess::new(), 0, SeedHook::new());
    controlled(&mut s, &mut m, &mut clamp, &mut hook);
    // the unit dies, and another one takes its place in the table
    add_unit(&mut m, 1, 0xe044, [9.0, 9.0, 9.0]);
    put(&mut m, body(1) + 0x1ac, 0xbeef_0002, 4);
    put(&mut m, body(1) + 0x1bc, 7, 2);
    put(&mut m, AI_TABLE + 2 * 0xd10 + 0x32c, 6, 4);
    let t = possess::control_tick(&mut s, &mut m, TLS, &mut hook, &vec![], [0, 0, 0], 0);
    assert!(t == Tick::Lost && s.releasing);
    let own = possess::service(&mut s, &mut m, TLS, SIM, &mut clamp, &mut hook);
    assert_eq!(own, Some(CHIEF));
    assert_eq!(m.read_u16(body(1) + 0x1bc), Some(7));
    assert_eq!(m.read_u32(body(1) + 0x1ac), Some(0xbeef_0002));
    assert_eq!(m.read_u32(AI_TABLE + 2 * 0xd10 + 0x32c), Some(6));
    assert_eq!(objects::player_unit_handle(&mut m, TLS), Some(CHIEF));
    assert_eq!(m.read_u32(CONTROLS + 0x198 + 0x80), Some(CHIEF));
    assert_eq!(player::player_team_byte(&mut m, TLS), Some(1));
    assert!(s.cur_handle == NO_HANDLE && s.saved_ai_datum == NO_HANDLE);
}

#[test]
fn some_targets_are_only_watched() {
    let mut m = sim();
    add_module(&mut m);
    let before = picture(&m);
    let mut s = Possess::new();
    let mut q = Queue::new();
    let mut cam = CamData::new();
    let mut clamp = 0;
    let mut hook = SeedHook::new();
    possess::note_cursor_toggle(&mut s);
    assert!(possess::cursor_active(&s));
    let mut go = |s: &mut Possess, m: &mut Memory, best: u64, h: Option<u32>| {
        possess::control(s, &mut q, &mut cam, m, links(), &mut clamp, &mut hook, best, h)
    };
    assert!(matches!(go(&mut s, &mut m, 0, Some(GRUNT)), Control::NoTarget));
    assert!(!s.follow);
    assert!(matches!(go(&mut s, &mut m, 0x77, None), Control::Spectate));
    assert!(s.follow && !s.control);
    assert!(matches!(go(&mut s, &mut m, 0x77, Some(CHIEF)), Control::OwnUnit));
    assert!(!s.control);
    assert_eq!(take_all(&mut q), vec![Cmd::ImguiInput, Cmd::ImguiInput, Cmd::ImguiInput]);
    assert_eq!(picture(&m), before);
    assert_eq!(possess::possessed_team_name(&s, &mut m, TLS), None);
    assert_eq!(possess::unpossess(&mut s), (false, true));
    assert!(!s.releasing);
}

#[test]
fn a_lost_unit_is_released() {
    let mut m = sim();
    add_module(&mut m);
    let mut s = Possess::new();
    let mut q = Queue::new();
    let mut cam = CamData::new();
    let mut clamp = 0;
    let mut hook = SeedHook::new();
    possess::control(
        &mut s, &mut q, &mut cam, &mut m, links(), &mut clamp, &mut hook, 0x77, Some(GRUNT),
    );
    put(&mut m, TABLE + 0x18, 0xe00f, 2);
    let t = possess::control_tick(&mut s, &mut m, TLS, &mut hook, &vec![], [0, 0, 0], 0);
    assert!(t == Tick::Lost && s.releasing && !s.control);
    assert!(possess::control_tick(&mut s, &mut m, TLS, &mut hook, &vec![], [0, 0, 0], 0) == Tick::Idle);
    assert_eq!(possess::on_target_lost(&mut s), (false, true));
}

#[test]
fn views_by_name() {
    let mut s = Possess::new();
    possess::set_view(&mut s, "first");
    assert!(!s.third);
    possess::set_view(&mut s, "tp");
    assert!(s.third);
    possess::set_view(&mut s, "toggle");
    assert!(!s.third);
    let mut cam = CamData::new();
    cam.freecam = true;
    assert!(!possess::select_and_possess(&mut s, &mut cam, 0));
    assert!(cam.freecam);
    assert!(possess::select_and_possess(&mut s, &mut cam, 9));
    assert!(!cam.freecam && s.third && s.follow);
    assert_eq!(possess::set_ai(true), "hs:ai_enable 1");
    assert_eq!(possess::set_ai(false), "hs:ai_enable 0");
    let mut m = sim();
    assert!(possess::diagweapon(&s, &mut m, TLS).is_none());
    s.cur_handle = GRUNT;
    assert_eq!(possess::diagweapon(&s, &mut m, TLS).unwrap().1, body(1));
}
