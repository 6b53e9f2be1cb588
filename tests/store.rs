use meter_core::model::UserAttr;
use meter_core::store::DataManager;

#[test]
fn test_basic_functionality() {
    let mut data_manager = DataManager::new(0);
    data_manager.add_damage(12345, 1001, 0, 1000, true, false, false, 0, 67890, 10);
    let ids = data_manager.user_ids();
    assert!(ids.contains(&12345));
}

#[test]
fn test_user_creation() {
    let mut data_manager = DataManager::new(0);
    let user = data_manager.get_or_create_user(99999, 0);
    assert_eq!(user.uid, 99999);
}

#[test]
fn each_hit_fills_one_bucket() {
    let mut m = DataManager::new(0);
    m.add_damage(1, 10, 0, 100, false, false, false, 0, 2, 1);
    m.add_damage(1, 10, 0, 200, true, false, false, 0, 2, 2);
    m.add_damage(1, 10, 0, 300, false, true, false, 0, 2, 3);
    m.add_damage(1, 10, 0, 400, true, true, false, 0, 2, 4);
    let u = m.get_user(1).unwrap();
    let v = u.damage_stats.values;
    assert_eq!((v.normal, v.critical, v.lucky, v.crit_lucky, v.total), (100, 200, 300, 400, 1000));
    let c = u.damage_stats.counts;
    assert_eq!((c.normal, c.critical, c.lucky, c.total), (1, 2, 2, 4));
}

#[test]
fn paused_store_ignores_writes() {
    let mut m = DataManager::new(0);
    m.pause(true);
    m.add_damage(1, 10, 0, 100, false, false, false, 0, 2, 1);
    m.add_healing(1, 10, 0, 100, false, false, false, 1);
    m.add_taken_damage(1, 5, true, 1);
    m.set_user_attr(1, UserAttr::Hp, 3, 1);
    m.set_enemy_hp(4, 3, 1);
    assert!(m.get_user(1).is_none());
    assert!(m.get_enemy(4).is_none());
    m.pause(false);
    m.add_damage(1, 10, 0, 100, false, false, false, 0, 2, 1);
    assert!(m.get_user(1).is_some());
}

#[test]
fn rate_is_total_per_second_and_peak_holds() {
    let mut m = DataManager::new(0);
    m.add_damage(1, 10, 0, 1000, false, false, false, 0, 2, 1000);
    m.add_damage(1, 10, 0, 1000, false, false, false, 0, 2, 3000);
    m.update_dps();
    let u = m.get_user(1).unwrap();
    assert_eq!(u.damage_stats.rate, 1000);
    assert_eq!(u.damage_stats.rate_max, 1000);
    m.add_damage(1, 10, 0, 0, false, false, false, 0, 2, 11000);
    m.update_dps();
    let u = m.get_user(1).unwrap();
    assert_eq!(u.damage_stats.rate, 200);
    assert_eq!(u.damage_stats.rate_max, 1000);
}

#[test]
fn rate_needs_a_non_empty_range() {
    let mut m = DataManager::new(0);
    m.add_damage(1, 10, 0, 1000, false, false, false, 0, 2, 1000);
    m.update_dps();
    assert_eq!(m.get_user(1).unwrap().damage_stats.rate, 0);
}

#[test]
fn store_clears_after_silence() {
    let mut m = DataManager::new(0);
    let mut s = m.get_settings();
    s.auto_clear_on_timeout = true;
    m.update_settings(s);
    m.add_damage(1, 10, 0, 500, false, false, false, 0, 2, 0);
    assert!(!m.check_timeout_clear(15000));
    assert_eq!(m.get_user(1).unwrap().damage_stats.values.total, 500);
    assert!(m.check_timeout_clear(15100));
    let u = m.get_user(1).unwrap();
    assert_eq!(u.damage_stats.values.total, 0);
    assert_eq!(u.skill_usage.len(), 0);
}

#[test]
fn elite_dummy_gate_suppresses_other_targets() {
    let mut m = DataManager::new(0);
    let mut s = m.get_settings();
    s.only_record_elite_dummy = true;
    m.update_settings(s);
    m.add_damage(1, 10, 0, 500, false, false, false, 0, 2, 0);
    assert!(m.get_user(1).is_none());
    m.add_damage(1, 10, 0, 500, false, false, false, 0, 75, 0);
    assert_eq!(m.get_user(1).unwrap().damage_stats.values.total, 500);
}

#[test]
fn healing_is_keyed_apart_from_damage() {
    let mut m = DataManager::new(0);
    m.add_damage(1, 20301, 0, 10, false, false, false, 0, 2, 0);
    m.add_healing(1, 20301, 0, 7, true, false, true, 0);
    let u = m.get_user(1).unwrap();
    assert_eq!(u.skill_usage.len(), 2);
    assert_eq!(u.healing_stats.values.critical, 7);
    assert_eq!(u.sub_profession.unwrap().label(), "愈合");
}

#[test]
fn heal_from_unknown_source_is_dropped() {
    let mut m = DataManager::new(0);
    m.add_healing(0, 1, 0, 7, false, false, false, 0);
    assert!(m.get_user(0).is_none());
}

#[test]
fn clear_keeps_identity_and_forgets_enemies() {
    let mut m = DataManager::new(0);
    m.set_user_name(1, "Alice".to_string(), 0);
    m.set_user_fight_point(1, 900, 0);
    m.add_taken_damage(1, 50, false, 0);
    m.set_enemy_hp(5, 100, 0);
    m.clear_all(1);
    let u = m.get_user(1).unwrap();
    assert_eq!(u.name, "Alice");
    assert_eq!(u.fight_point, 0);
    assert_eq!(u.taken_damage, 0);
    assert!(m.get_enemy(5).is_none());
}

#[test]
fn profession_change_clears_sub_profession() {
    let mut m = DataManager::new(0);
    m.add_damage(1, 1241, 0, 10, false, false, false, 0, 2, 0);
    assert!(m.get_user(1).unwrap().sub_profession.is_some());
    m.set_user_profession(1, "神射手".to_string(), 0);
    assert!(m.get_user(1).unwrap().sub_profession.is_none());
}
