use crossout_log::flags::{parse_damage_flags, DamageFlag, DamageFlags};

const ALL: [DamageFlag; 17] = [
    DamageFlag::Generic,
    DamageFlag::Direct,
    DamageFlag::Blast,
    DamageFlag::Energy,
    DamageFlag::Collision,
    DamageFlag::Flame,
    DamageFlag::Continuous,
    DamageFlag::Contact,
    DamageFlag::Piercing,
    DamageFlag::PiercingTransition,
    DamageFlag::DirectPiercing,
    DamageFlag::IgnoreDamageScale,
    DamageFlag::Suicide,
    DamageFlag::SuicideDespawn,
    DamageFlag::Important,
    DamageFlag::Hidden,
    DamageFlag::HighResist,
];

#[test]
fn main_test_damage_flags() {
    let flags = vec![
        "DMG_DIRECT",
        "HUD_IMPORTANT",
        "HUD_HIDDEN",
        "DMG_GENERIC",
        "SUICIDE",
        "SUICIDE_DESPAWN",
        "DMG_BLAST",
        "CONTINUOUS",
        "DMG_ENERGY",
        "CONTACT",
        "DMG_COLLISION",
        "DMG_FLAME",
    ];
    for flag in flags {
        let result = DamageFlag::from_name(flag);
        if result.is_none() {
            println!("{:?} failed with {:?}", flag, result)
        }
        assert!(result.is_some());
    }
}

#[test]
fn flag_names_round_trip() {
    for f in ALL {
        assert_eq!(DamageFlag::from_name(f.name()), Some(f));
    }
    assert_eq!(DamageFlag::from_name("dmg_direct"), None);
}

#[test]
fn every_flag_in_any_order() {
    let mut names: Vec<&str> = ALL.iter().map(|f| f.name()).collect();
    names.reverse();
    let joined = names.join("|");
    let parsed = parse_damage_flags(&joined).unwrap();
    for f in ALL {
        assert!(parsed.contains(f));
    }
    assert_eq!(parsed.bits(), 0x1ffff);
    let with_trailing = format!("{}|", joined);
    assert_eq!(parse_damage_flags(&with_trailing), Some(parsed));
}

#[test]
fn subset_and_repetition() {
    let a = parse_damage_flags("SUICIDE|DMG_BLAST|SUICIDE").unwrap();
    let b = parse_damage_flags("DMG_BLAST|SUICIDE").unwrap();
    assert_eq!(a, b);
    assert!(a.contains(DamageFlag::Suicide));
    assert!(a.contains(DamageFlag::Blast));
    assert!(!a.contains(DamageFlag::Direct));
    assert_eq!(a.bits(), (1 << 12) | (1 << 2));
}

#[test]
fn empty_and_bad_flag_lists() {
    assert_eq!(parse_damage_flags(""), Some(DamageFlags::empty()));
    assert_eq!(parse_damage_flags("DMG_DIRECT||CONTACT"), None);
    assert_eq!(parse_damage_flags("|DMG_DIRECT"), None);
    assert_eq!(parse_damage_flags("DMG_DIRECT|NOPE"), None);
    assert_eq!(parse_damage_flags("DMG_DIRECT "), None);
}

#[test]
fn union_of_sets() {
    let a = DamageFlags::single(DamageFlag::Hidden);
    let b = DamageFlags::single(DamageFlag::HighResist);
    let u = a.union(&b);
    assert!(u.contains(DamageFlag::Hidden));
    assert!(u.contains(DamageFlag::HighResist));
    assert_eq!(u.bits(), (1 << 15) | (1 << 16));
}
