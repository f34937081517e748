use win_script_hub::{format_script_id, generate_id, id_for_clock, rand_u32, truncate_to_u32};

#[test]
fn format_script_id_exact() {
    assert_eq!(format_script_id(1700000000123, 42), "s_1700000000123_42");
    assert_eq!(format_script_id(0, 0), "s_0_0");
    assert_eq!(format_script_id(u128::MAX, u32::MAX), format!("s_{}_{}", u128::MAX, u32::MAX));
}

#[test]
fn different_inputs_give_different_ids() {
    assert_ne!(format_script_id(1, 23), format_script_id(12, 3));
    assert_ne!(format_script_id(10, 0), format_script_id(1, 0));
}

#[test]
fn truncate_keeps_low_bits() {
    assert_eq!(truncate_to_u32(0x1234_5678_9ABC_DEF0), 0x9ABC_DEF0);
    assert_eq!(truncate_to_u32(7), 7);
}

#[test]
fn generated_id_has_shape() {
    let id = generate_id().unwrap();
    let parts: Vec<&str> = id.split('_').collect();
    assert_eq!(parts.len(), 3);
    assert_eq!(parts[0], "s");
    let millis: u128 = parts[1].parse().unwrap();
    assert!(millis > 1_600_000_000_000);
    parts[2].parse::<u32>().unwrap();
}

#[test]
fn rand_u32_runs() {
    let _ = rand_u32();
}

#[test]
fn clock_before_epoch_gives_no_id() {
    assert_eq!(id_for_clock(None, 5), None);
    assert_eq!(id_for_clock(Some(17), 5), Some("s_17_5".to_string()));
}
