use mythterm::args::{
    first_valid_step, parse_u32, snapshot_from_args, snapshot_from_args_or_next, step_from_args,
    tab_step_from_args, TabStep,
};

fn args(items: &[&str]) -> Vec<String> {
    items.iter().map(|s| s.to_string()).collect()
}

#[test]
fn parse_u32_accepts_what_from_str_accepts() {
    assert_eq!(parse_u32(b"0"), Some(0));
    assert_eq!(parse_u32(b"42"), Some(42));
    assert_eq!(parse_u32(b"+7"), Some(7));
    assert_eq!(parse_u32(b"007"), Some(7));
    assert_eq!(parse_u32(b"4294967295"), Some(u32::MAX));
}

#[test]
fn parse_u32_rejects_the_rest() {
    assert_eq!(parse_u32(b""), None);
    assert_eq!(parse_u32(b"+"), None);
    assert_eq!(parse_u32(b"-1"), None);
    assert_eq!(parse_u32(b"4294967296"), None);
    assert_eq!(parse_u32(b"12a"), None);
    assert_eq!(parse_u32(b" 1"), None);
}

#[test]
fn parse_u32_matches_std_on_samples() {
    for s in ["1", "99", "+3", "", "x", "65536", "99999999999", "-0", "0000000000001"] {
        assert_eq!(parse_u32(s.as_bytes()), s.parse::<u32>().ok(), "input {:?}", s);
    }
}

#[test]
fn step_is_clamped_to_the_range() {
    assert_eq!(step_from_args(&args(&["prog", "--step=3"]), Some(6)), 3);
    assert_eq!(step_from_args(&args(&["prog", "--step=9"]), Some(6)), 6);
    assert_eq!(step_from_args(&args(&["prog", "--step=0"]), Some(4)), 1);
    assert_eq!(step_from_args(&args(&["prog", "--step=9"]), None), 9);
}

#[test]
fn step_defaults_to_one() {
    assert_eq!(step_from_args(&args(&["prog"]), Some(6)), 1);
    assert_eq!(step_from_args(&args(&["prog", "--step=x"]), Some(6)), 1);
    assert_eq!(step_from_args(&args(&["prog", "--step="]), None), 1);
    assert_eq!(step_from_args(&args(&["prog", "--step", "3"]), Some(6)), 1);
}

#[test]
fn first_step_flag_wins() {
    assert_eq!(step_from_args(&args(&["--step=2", "--step=5"]), Some(6)), 2);
    assert_eq!(step_from_args(&args(&["--step=bad", "--step=5"]), Some(6)), 1);
}

#[test]
fn first_valid_step_skips_bad_values() {
    assert_eq!(first_valid_step(&args(&["--step=bad", "--step=5"])), 5);
    assert_eq!(first_valid_step(&args(&["prog"])), 1);
    assert_eq!(first_valid_step(&args(&["--step=12"])), 12);
}

#[test]
fn snapshot_flag_values() {
    assert_eq!(snapshot_from_args(&args(&["prog", "--snapshot-at=30"])), Some(30));
    assert_eq!(snapshot_from_args(&args(&["prog", "--snapshot-at=x"])), None);
    assert_eq!(snapshot_from_args(&args(&["prog"])), None);
    assert_eq!(snapshot_from_args(&args(&["prog", "--snapshot-at", "30"])), None);
}

#[test]
fn snapshot_with_separate_value() {
    assert_eq!(snapshot_from_args_or_next(&args(&["prog", "--snapshot-at", "30"])), Some(30));
    assert_eq!(snapshot_from_args_or_next(&args(&["prog", "--snapshot-at=12"])), Some(12));
    assert_eq!(snapshot_from_args_or_next(&args(&["prog", "--snapshot-at"])), None);
    assert_eq!(snapshot_from_args_or_next(&args(&["--snapshot-at", "x", "--snapshot-at=3"])), None);
    assert_eq!(snapshot_from_args_or_next(&args(&["a", "b"])), None);
}

#[test]
fn tab_steps_by_number() {
    assert_eq!(tab_step_from_args(&args(&["tab-test", "--step", "1"])), TabStep::Fill);
    assert_eq!(tab_step_from_args(&args(&["tab-test", "--step", "2"])), TabStep::Rounded);
    assert_eq!(tab_step_from_args(&args(&["tab-test", "--step", "5"])), TabStep::Glow);
    assert_eq!(tab_step_from_args(&args(&["tab-test", "--step", "8"])), TabStep::NoLeftRight);
    assert_eq!(tab_step_from_args(&args(&["tab-test", "--step", "9"])), TabStep::Fill);
    assert_eq!(tab_step_from_args(&args(&["tab-test", "--step"])), TabStep::Fill);
    assert_eq!(tab_step_from_args(&args(&["tab-test", "-v", "--step", "3"])), TabStep::Fill);
    assert_eq!(tab_step_from_args(&args(&["tab-test", "--step=3"])), TabStep::Fill);
    assert_eq!(tab_step_from_args(&args(&[])), TabStep::Fill);
}
