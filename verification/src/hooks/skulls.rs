//! How the skulls are named.

use vstd::prelude::*;

use crate::hooks::imgui::{SKULLS, skull_label, skull_name};

verus! {

/// A character of a label as it stands in a script name: a small letter for a capital one, and
/// an underscore for a space.
pub open spec fn script_char(c: char) -> char {
    if 'A' <= c <= 'Z' {
        (c as u32 + 32) as char
    } else if c == ' ' {
        '_'
    } else {
        c
    }
}

/// A label as it stands in a script name: the apostrophes are left out.
pub open spec fn script_form(label: Seq<char>) -> Seq<char> {
    label.filter(|c: char| c != '\'').map_values(|c: char| script_char(c))
}

/// `name` is `skull_` and then `label`, which holds no apostrophe, character by character.
spec fn named(name: Seq<char>, label: Seq<char>) -> bool {
    &&& name.len() == 6 + label.len()
    &&& name[0] == 's' && name[1] == 'k' && name[2] == 'u' && name[3] == 'l' && name[4] == 'l'
    &&& name[5] == '_'
    &&& forall|k: int| 0 <= k < label.len() ==> name[6 + k] == script_char(#[trigger] label[k])
    &&& forall|k: int| 0 <= k < label.len() ==> #[trigger] label[k] != '\''
}

proof fn lemma_named_a(i: usize)
    requires
        0 <= i < 9,
    ensures
        named(skull_name(i), skull_label(i)),
{
    if i == 0 {
        reveal_strlit("Third Person");
        reveal_strlit("skull_third_person");
    } else if i == 1 {
        reveal_strlit("Night Vision");
        reveal_strlit("skull_night_vision");
    } else if i == 2 {
        reveal_strlit("Bandanna");
        reveal_strlit("skull_bandanna");
    } else if i == 3 {
        reveal_strlit("Adaptation");
        reveal_strlit("skull_adaptation");
    } else if i == 4 {
        reveal_strlit("Angry");
        reveal_strlit("skull_angry");
    } else if i == 5 {
        reveal_strlit("Armistice");
        reveal_strlit("skull_armistice");
    } else if i == 6 {
        reveal_strlit("Assassin");
        reveal_strlit("skull_assassin");
    } else if i == 7 {
        reveal_strlit("Birthday Party");
        reveal_strlit("skull_birthday_party");
    } else {
        reveal_strlit("Black Eye");
        reveal_strlit("skull_black_eye");
    }
}

proof fn lemma_named_b(i: usize)
    requires
        9 <= i < 18,
    ensures
        named(skull_name(i), skull_label(i)),
{
    if i == 9 {
        reveal_strlit("Blind");
        reveal_strlit("skull_blind");
    } else if i == 10 {
        reveal_strlit("Bonded Pair");
        reveal_strlit("skull_bonded_pair");
    } else if i == 11 {
        reveal_strlit("Boom");
        reveal_strlit("skull_boom");
    } else if i == 12 {
        reveal_strlit("Boots Off The Ground");
        reveal_strlit("skull_boots_off_the_ground");
    } else if i == 13 {
        reveal_strlit("Catch");
        reveal_strlit("skull_catch");
    } else if i == 14 {
        reveal_strlit("Efficient");
        reveal_strlit("skull_efficient");
    } else if i == 15 {
        reveal_strlit("Eye Patch");
        reveal_strlit("skull_eye_patch");
    } else if i == 16 {
        reveal_strlit("Famine");
        reveal_strlit("skull_famine");
    } else {
        reveal_strlit("Floor Is Lava");
        reveal_strlit("skull_floor_is_lava");
    }
}

proof fn lemma_named_c(i: usize)
    requires
        18 <= i < 27,
    ensures
        named(skull_name(i), skull_label(i)),
{
    if i == 18 {
        reveal_strlit("Fog");
        reveal_strlit("skull_fog");
    } else if i == 19 {
        reveal_strlit("Foreign");
        reveal_strlit("skull_foreign");
    } else if i == 20 {
        reveal_strlit("Fragile");
        reveal_strlit("skull_fragile");
    } else if i == 21 {
        reveal_strlit("Ghost");
        reveal_strlit("skull_ghost");
    } else if i == 22 {
        reveal_strlit("Give And Take");
        reveal_strlit("skull_give_and_take");
    } else if i == 23 {
        reveal_strlit("Grunt Birthday Party");
        reveal_strlit("skull_grunt_birthday_party");
    } else if i == 24 {
        reveal_strlit("Grunt Funeral");
        reveal_strlit("skull_grunt_funeral");
    } else if i == 25 {
        reveal_strlit("Hip Fire");
        reveal_strlit("skull_hip_fire");
    } else {
        reveal_strlit("Iron");
        reveal_strlit("skull_iron");
    }
}

proof fn lemma_named_d(i: usize)
    requires
        27 <= i < 36,
    ensures
        named(skull_name(i), skull_label(i)),
{
    if i == 27 {
        reveal_strlit("IWHBYD");
        reveal_strlit("skull_iwhbyd");
    } else if i == 28 {
        reveal_strlit("Jacked");
        reveal_strlit("skull_jacked");
    } else if i == 29 {
        reveal_strlit("Johnny Ammo Tree");
        reveal_strlit("skull_johnny_ammo_tree");
    } else if i == 30 {
        reveal_strlit("Leadhead");
        reveal_strlit("skull_leadhead");
    } else if i == 31 {
        reveal_strlit("Lights Out");
        reveal_strlit("skull_lights_out");
    } else if i == 32 {
        reveal_strlit("Magnified");
        reveal_strlit("skull_magnified");
    } else if i == 33 {
        reveal_strlit("Malfunction");
        reveal_strlit("skull_malfunction");
    } else if i == 34 {
        reveal_strlit("Masterblaster");
        reveal_strlit("skull_masterblaster");
    } else {
        reveal_strlit("Mythic");
        reveal_strlit("skull_mythic");
    }
}

proof fn lemma_named_e(i: usize)
    requires
        36 <= i < 45,
    ensures
        named(skull_name(i), skull_label(i)),
{
    if i == 36 {
        reveal_strlit("Pinata");
        reveal_strlit("skull_pinata");
    } else if i == 37 {
        reveal_strlit("Pop");
        reveal_strlit("skull_pop");
    } else if i == 38 {
        reveal_strlit("Recession");
        reveal_strlit("skull_recession");
    } else if i == 39 {
        reveal_strlit("Reload");
        reveal_strlit("skull_reload");
    } else if i == 40 {
        reveal_strlit("Riskrun");
        reveal_strlit("skull_riskrun");
    } else if i == 41 {
        reveal_strlit("Scarab");
        reveal_strlit("skull_scarab");
    } else if i == 42 {
        reveal_strlit("So Angry");
        reveal_strlit("skull_so_angry");
    } else if i == 43 {
        reveal_strlit("Spore Visibility");
        reveal_strlit("skull_spore_visibility");
    } else {
        reveal_strlit("Stow And Grow");
        reveal_strlit("skull_stow_and_grow");
    }
}

proof fn lemma_named_f(i: usize)
    requires
        45 <= i < 53,
        i != 48,
    ensures
        named(skull_name(i), skull_label(i)),
{
    if i == 45 {
        reveal_strlit("Superman");
        reveal_strlit("skull_superman");
    } else if i == 46 {
        reveal_strlit("Swarm");
        reveal_strlit("skull_swarm");
    } else if i == 47 {
        reveal_strlit("Temperamental");
        reveal_strlit("skull_temperamental");
    } else if i == 49 {
        reveal_strlit("They Come Back");
        reveal_strlit("skull_they_come_back");
    } else if i == 50 {
        reveal_strlit("Thunderstorm");
        reveal_strlit("skull_thunderstorm");
    } else if i == 51 {
        reveal_strlit("Tilt");
        reveal_strlit("skull_tilt");
    } else {
        reveal_strlit("Tough Luck");
        reveal_strlit("skull_tough_luck");
    }
}

proof fn lemma_none_left_out(s: Seq<char>)
    requires
        forall|k: int| 0 <= k < s.len() ==> #[trigger] s[k] != '\'',
    ensures
        s.filter(|c: char| c != '\'') == s,
    decreases s.len(),
{
    reveal(Seq::filter);
    if s.len() > 0 {
        let t = s.drop_last();
        assert forall|k: int| 0 <= k < t.len() implies #[trigger] t[k] != '\'' by {
            assert(t[k] == s[k]);
        }
        lemma_none_left_out(t);
        assert(t.push(s.last()) =~= s);
    }
}

proof fn lemma_apostrophe_left_out(a: Seq<char>, b: Seq<char>)
    requires
        forall|k: int| 0 <= k < a.len() ==> #[trigger] a[k] != '\'',
        forall|k: int| 0 <= k < b.len() ==> #[trigger] b[k] != '\'',
    ensures
        (a + seq!['\''] + b).filter(|c: char| c != '\'') == a + b,
{
    let p = |c: char| c != '\'';
    lemma_none_left_out(a);
    lemma_none_left_out(b);
    let q = seq!['\''];
    assert(q.filter(p) == Seq::<char>::empty()) by {
        reveal(Seq::filter);
        assert(q.drop_last() =~= Seq::empty());
        lemma_none_left_out(q.drop_last());
    }
    Seq::filter_distributes_over_add(a, q, p);
    Seq::filter_distributes_over_add(a + q, b, p);
    assert(a + Seq::<char>::empty() =~= a);
}

/// The script name of every skull is `skull_` and its label in lower case, with an underscore
/// for each space and the apostrophes left out.
pub proof fn law_script_name_is_label(i: usize)
    requires
        i < SKULLS,
    ensures
        skull_name(i) == "skull_"@ + script_form(skull_label(i)),
{
    let label = skull_label(i);
    let name = skull_name(i);
    reveal_strlit("skull_");
    if i == 48 {
        reveal_strlit("That's Just Wrong");
        reveal_strlit("skull_thats_just_wrong");
        let a = label.take(4);
        let b = label.skip(5);
        assert(label =~= a + seq!['\''] + b);
        lemma_apostrophe_left_out(a, b);
        let left = a + b;
        assert(forall|k: int| 0 <= k < 16 ==> name[6 + k] == script_char(#[trigger] left[k]));
        assert(name =~= "skull_"@ + script_form(label));
    } else {
        if i < 9 {
            lemma_named_a(i);
        } else if i < 18 {
            lemma_named_b(i);
        } else if i < 27 {
            lemma_named_c(i);
        } else if i < 36 {
            lemma_named_d(i);
        } else if i < 45 {
            lemma_named_e(i);
        } else {
            lemma_named_f(i);
        }
        lemma_none_left_out(label);
        assert forall|k: int| 0 <= k < name.len() implies name[k] == ("skull_"@ + script_form(
            label,
        ))[k] by {
            if k >= 6 {
                assert(name[6 + (k - 6)] == script_char(label[k - 6]));
            }
        }
        assert(name =~= "skull_"@ + script_form(label));
    }
}

/// Two texts are the same up to place `k`, where the first has the lesser character.
pub open spec fn ahead(a: Seq<char>, b: Seq<char>, k: int) -> bool {
    &&& 0 <= k < a.len() && k < b.len()
    &&& a[k] < b[k]
    &&& forall|j: int| 0 <= j < k ==> #[trigger] a[j] == b[j]
}

proof fn lemma_ahead_a(i: usize)
    requires
        3 <= i < 15,
    ensures
        exists|k: int| #[trigger] ahead(skull_name(i), skull_name((i + 1) as usize), k),
{
    if i == 3 {
        reveal_strlit("skull_adaptation");
        reveal_strlit("skull_angry");
        assert(ahead(skull_name(i), skull_name((i + 1) as usize), 7));
    } else if i == 4 {
        reveal_strlit("skull_angry");
        reveal_strlit("skull_armistice");
        assert(ahead(skull_name(i), skull_name((i + 1) as usize), 7));
    } else if i == 5 {
        reveal_strlit("skull_armistice");
        reveal_strlit("skull_assassin");
        assert(ahead(skull_name(i), skull_name((i + 1) as usize), 7));
    } else if i == 6 {
        reveal_strlit("skull_assassin");
        reveal_strlit("skull_birthday_party");
        assert(ahead(skull_name(i), skull_name((i + 1) as usize), 6));
    } else if i == 7 {
        reveal_strlit("skull_birthday_party");
        reveal_strlit("skull_black_eye");
        assert(ahead(skull_name(i), skull_name((i + 1) as usize), 7));
    } else if i == 8 {
        reveal_strlit("skull_black_eye");
        reveal_strlit("skull_blind");
        assert(ahead(skull_name(i), skull_name((i + 1) as usize), 8));
    } else if i == 9 {
        reveal_strlit("skull_blind");
        reveal_strlit("skull_bonded_pair");
        assert(ahead(skull_name(i), skull_name((i + 1) as usize), 7));
    } else if i == 10 {
        reveal_strlit("skull_bonded_pair");
        reveal_strlit("skull_boom");
        assert(ahead(skull_name(i), skull_name((i + 1) as usize), 8));
    } else if i == 11 {
        reveal_strlit("skull_boom");
        reveal_strlit("skull_boots_off_the_ground");
        assert(ahead(skull_name(i), skull_name((i + 1) as usize), 9));
    } else if i == 12 {
        reveal_strlit("skull_boots_off_the_ground");
        reveal_strlit("skull_catch");
        assert(ahead(skull_name(i), skull_name((i + 1) as usize), 6));
    } else if i == 13 {
        reveal_strlit("skull_catch");
        reveal_strlit("skull_efficient");
        assert(ahead(skull_name(i), skull_name((i + 1) as usize), 6));
    } else {
        reveal_strlit("skull_efficient");
        reveal_strlit("skull_eye_patch");
        assert(ahead(skull_name(i), skull_name((i + 1) as usize), 7));
    }
}

proof fn lemma_ahead_b(i: usize)
    requires
        15 <= i < 27,
    ensures
        exists|k: int| #[trigger] ahead(skull_name(i), skull_name((i + 1) as usize), k),
{
    if i == 15 {
        reveal_strlit("skull_eye_patch");
        reveal_strlit("skull_famine");
        assert(ahead(skull_name(i), skull_name((i + 1) as usize), 6));
    } else if i == 16 {
        reveal_strlit("skull_famine");
        reveal_strlit("skull_floor_is_lava");
        assert(ahead(skull_name(i), skull_name((i + 1) as usize), 7));
    } else if i == 17 {
        reveal_strlit("skull_floor_is_lava");
        reveal_strlit("skull_fog");
        assert(ahead(skull_name(i), skull_name((i + 1) as usize), 7));
    } else if i == 18 {
        reveal_strlit("skull_fog");
        reveal_strlit("skull_foreign");
        assert(ahead(skull_name(i), skull_name((i + 1) as usize), 8));
    } else if i == 19 {
        reveal_strlit("skull_foreign");
        reveal_strlit("skull_fragile");
        assert(ahead(skull_name(i), skull_name((i + 1) as usize), 7));
    } else if i == 20 {
        reveal_strlit("skull_fragile");
        reveal_strlit("skull_ghost");
        assert(ahead(skull_name(i), skull_name((i + 1) as usize), 6));
    } else if i == 21 {
        reveal_strlit("skull_ghost");
        reveal_strlit("skull_give_and_take");
        assert(ahead(skull_name(i), skull_name((i + 1) as usize), 7));
    } else if i == 22 {
        reveal_strlit("skull_give_and_take");
        reveal_strlit("skull_grunt_birthday_party");
        assert(ahead(skull_name(i), skull_name((i + 1) as usize), 7));
    } else if i == 23 {
        reveal_strlit("skull_grunt_birthday_party");
        reveal_strlit("skull_grunt_funeral");
        assert(ahead(skull_name(i), skull_name((i + 1) as usize), 12));
    } else if i == 24 {
        reveal_strlit("skull_grunt_funeral");
        reveal_strlit("skull_hip_fire");
        assert(ahead(skull_name(i), skull_name((i + 1) as usize), 6));
    } else if i == 25 {
        reveal_strlit("skull_hip_fire");
        reveal_strlit("skull_iron");
        assert(ahead(skull_name(i), skull_name((i + 1) as usize), 6));
    } else {
        reveal_strlit("skull_iron");
        reveal_strlit("skull_iwhbyd");
        assert(ahead(skull_name(i), skull_name((i + 1) as usize), 7));
    }
}

proof fn lemma_ahead_c(i: usize)
    requires
        27 <= i < 39,
    ensures
        exists|k: int| #[trigger] ahead(skull_name(i), skull_name((i + 1) as usize), k),
{
    if i == 27 {
        reveal_strlit("skull_iwhbyd");
        reveal_strlit("skull_jacked");
        assert(ahead(skull_name(i), skull_name((i + 1) as usize), 6));
    } else if i == 28 {
        reveal_strlit("skull_jacked");
        reveal_strlit("skull_johnny_ammo_tree");
        assert(ahead(skull_name(i), skull_name((i + 1) as usize), 7));
    } else if i == 29 {
        reveal_strlit("skull_johnny_ammo_tree");
        reveal_strlit("skull_leadhead");
        assert(ahead(skull_name(i), skull_name((i + 1) as usize), 6));
    } else if i == 30 {
        reveal_strlit("skull_leadhead");
        reveal_strlit("skull_lights_out");
        assert(ahead(skull_name(i), skull_name((i + 1) as usize), 7));
    } else if i == 31 {
        reveal_strlit("skull_lights_out");
        reveal_strlit("skull_magnified");
        assert(ahead(skull_name(i), skull_name((i + 1) as usize), 6));
    } else if i == 32 {
        reveal_strlit("skull_magnified");
        reveal_strlit("skull_malfunction");
        assert(ahead(skull_name(i), skull_name((i + 1) as usize), 8));
    } else if i == 33 {
        reveal_strlit("skull_malfunction");
        reveal_strlit("skull_masterblaster");
        assert(ahead(skull_name(i), skull_name((i + 1) as usize), 8));
    } else if i == 34 {
        reveal_strlit("skull_masterblaster");
        reveal_strlit("skull_mythic");
        assert(ahead(skull_name(i), skull_name((i + 1) as usize), 7));
    } else if i == 35 {
        reveal_strlit("skull_mythic");
        reveal_strlit("skull_pinata");
        assert(ahead(skull_name(i), skull_name((i + 1) as usize), 6));
    } else if i == 36 {
        reveal_strlit("skull_pinata");
        reveal_strlit("skull_pop");
        assert(ahead(skull_name(i), skull_name((i + 1) as usize), 7));
    } else if i == 37 {
        reveal_strlit("skull_pop");
        reveal_strlit("skull_recession");
        assert(ahead(skull_name(i), skull_name((i + 1) as usize), 6));
    } else {
        reveal_strlit("skull_recession");
        reveal_strlit("skull_reload");
        assert(ahead(skull_name(i), skull_name((i + 1) as usize), 8));
    }
}

proof fn lemma_ahead_d(i: usize)
    requires
        39 <= i < 52,
    ensures
        exists|k: int| #[trigger] ahead(skull_name(i), skull_name((i + 1) as usize), k),
{
    if i == 39 {
        reveal_strlit("skull_reload");
        reveal_strlit("skull_riskrun");
        assert(ahead(skull_name(i), skull_name((i + 1) as usize), 7));
    } else if i == 40 {
        reveal_strlit("skull_riskrun");
        reveal_strlit("skull_scarab");
        assert(ahead(skull_name(i), skull_name((i + 1) as usize), 6));
    } else if i == 41 {
        reveal_strlit("skull_scarab");
        reveal_strlit("skull_so_angry");
        assert(ahead(skull_name(i), skull_name((i + 1) as usize), 7));
    } else if i == 42 {
        reveal_strlit("skull_so_angry");
        reveal_strlit("skull_spore_visibility");
        assert(ahead(skull_name(i), skull_name((i + 1) as usize), 7));
    } else if i == 43 {
        reveal_strlit("skull_spore_visibility");
        reveal_strlit("skull_stow_and_grow");
        assert(ahead(skull_name(i), skull_name((i + 1) as usize), 7));
    } else if i == 44 {
        reveal_strlit("skull_stow_and_grow");
        reveal_strlit("skull_superman");
        assert(ahead(skull_name(i), skull_name((i + 1) as usize), 7));
    } else if i == 45 {
        reveal_strlit("skull_superman");
        reveal_strlit("skull_swarm");
        assert(ahead(skull_name(i), skull_name((i + 1) as usize), 7));
    } else if i == 46 {
        reveal_strlit("skull_swarm");
        reveal_strlit("skull_temperamental");
        assert(ahead(skull_name(i), skull_name((i + 1) as usize), 6));
    } else if i == 47 {
        reveal_strlit("skull_temperamental");
        reveal_strlit("skull_thats_just_wrong");
        assert(ahead(skull_name(i), skull_name((i + 1) as usize), 7));
    } else if i == 48 {
        reveal_strlit("skull_thats_just_wrong");
        reveal_strlit("skull_they_come_back");
        assert(ahead(skull_name(i), skull_name((i + 1) as usize), 8));
    } else if i == 49 {
        reveal_strlit("skull_they_come_back");
        reveal_strlit("skull_thunderstorm");
        assert(ahead(skull_name(i), skull_name((i + 1) as usize), 8));
    } else if i == 50 {
        reveal_strlit("skull_thunderstorm");
        reveal_strlit("skull_tilt");
        assert(ahead(skull_name(i), skull_name((i + 1) as usize), 7));
    } else {
        reveal_strlit("skull_tilt");
        reveal_strlit("skull_tough_luck");
        assert(ahead(skull_name(i), skull_name((i + 1) as usize), 7));
    }
}

/// The first three skulls come first: third person, night vision and the bandanna. From the fourth
/// on the skulls are in the order of their script names, and so none comes twice.
pub proof fn law_skulls_in_order(i: usize)
    requires
        3 <= i < 52,
    ensures
        exists|k: int| #[trigger] ahead(skull_name(i), skull_name((i + 1) as usize), k),
        skull_label(0) == "Third Person"@,
        skull_label(1) == "Night Vision"@,
        skull_label(2) == "Bandanna"@,
        SKULLS == 53,
{
    if i < 15 {
        lemma_ahead_a(i);
    } else if i < 27 {
        lemma_ahead_b(i);
    } else if i < 39 {
        lemma_ahead_c(i);
    } else {
        lemma_ahead_d(i);
    }
}

} // verus!
