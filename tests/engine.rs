use xdelta3::config::{Xd3Config, DEFAULT_WINDOW_SIZE};
use xdelta3::driver::{Action, DeltaDriver, Mode, Phase, Signal};
use xdelta3::memory::{output_capacity, output_len};

#[test]
fn default_config() {
    let cfg = Xd3Config::new();
    assert_eq!(cfg.window_size(), 1 << 23);
    assert_eq!(cfg.window_size(), DEFAULT_WINDOW_SIZE);
    assert_eq!(cfg.sprev_size(), 1 << 18);
    assert_eq!(cfg.flags(), 0);
    assert_eq!(cfg.level(), 0);
    assert_eq!(cfg.source_window(), 1 << 26);
    assert_eq!(cfg.source_block_count(), 32);
    assert_eq!(cfg.source_block_size(), 1 << 21);
    let cache = cfg.source_cache();
    assert_eq!(cache.block_size(), 1 << 21);
    assert_eq!(cache.block_count(), 32);
}

#[test]
fn level_is_clamped_and_stored_in_flags() {
    let mut cfg = Xd3Config::new();
    cfg.set_level(5);
    assert_eq!(cfg.level(), 5);
    assert_eq!(cfg.flags(), 5 << 20);
    cfg.set_level(-3);
    assert_eq!(cfg.level(), 0);
    assert_eq!(cfg.flags(), 0);
    cfg.set_level(12);
    assert_eq!(cfg.level(), 9);
    assert_eq!(cfg.flags(), 9 << 20);
}

#[test]
fn signal_codes_round_trip() {
    let all = [
        Signal::NeedInput,
        Signal::ProducedOutput,
        Signal::NeedSourceBlock,
        Signal::HeaderParsed,
        Signal::WindowStart,
        Signal::WindowFinish,
        Signal::TooFarBack,
        Signal::Internal,
        Signal::Invalid,
        Signal::InvalidInput,
        Signal::NoSecondCompressor,
        Signal::Unimplemented,
    ];
    for s in all {
        assert_eq!(Signal::from_code(s.code()), Some(s));
    }
    assert_eq!(Signal::NeedInput.code(), -17703);
    assert_eq!(Signal::Unimplemented.code(), -17714);
    assert_eq!(Signal::from_code(0), None);
    assert_eq!(Signal::from_code(-17702), None);
    assert_eq!(Signal::from_code(-17715), None);
}

#[test]
fn driver_runs_a_pass_to_the_end() {
    let mut d = DeltaDriver::new(Mode::Decode, 16);
    assert_eq!(d.mode(), Mode::Decode);
    assert_eq!(d.input_buffer_size(), 16);
    assert_eq!(d.on_signal(Signal::NeedInput), Action::ReadInput);
    assert!(!d.on_input(16));
    assert_eq!(d.on_signal(Signal::HeaderParsed), Action::Continue);
    assert_eq!(d.on_signal(Signal::WindowStart), Action::Continue);
    assert_eq!(d.on_signal(Signal::NeedSourceBlock), Action::FetchSourceBlock);
    assert_eq!(d.on_signal(Signal::ProducedOutput), Action::WriteOutput);
    assert_eq!(d.on_signal(Signal::WindowFinish), Action::Continue);
    assert_eq!(d.on_signal(Signal::NeedInput), Action::ReadInput);
    assert!(d.on_input(0));
    assert!(d.eof());
    assert_eq!(d.phase(), Phase::Running);
    assert_eq!(d.on_signal(Signal::ProducedOutput), Action::WriteOutput);
    assert_eq!(d.on_signal(Signal::NeedInput), Action::Finish);
    assert_eq!(d.phase(), Phase::Done);
    assert_eq!(d.on_signal(Signal::ProducedOutput), Action::Finish);
}

#[test]
fn fatal_signals_fail_the_pass() {
    for s in [
        Signal::TooFarBack,
        Signal::Internal,
        Signal::Invalid,
        Signal::InvalidInput,
        Signal::NoSecondCompressor,
        Signal::Unimplemented,
    ] {
        assert!(s.is_fatal());
        let mut d = DeltaDriver::new(Mode::Encode, 8);
        assert_eq!(d.on_signal(s), Action::Fail(s));
        assert_eq!(d.phase(), Phase::Failed(s));
        assert_eq!(d.on_signal(Signal::NeedInput), Action::Fail(s));
    }
    assert!(!Signal::NeedInput.is_fatal());
}

#[test]
fn corrupt_patch_fails_after_input_ends() {
    // an engine that rejects a truncated patch signals invalid input
    let mut d = DeltaDriver::new(Mode::Decode, 8);
    assert_eq!(d.on_signal(Signal::NeedInput), Action::ReadInput);
    assert!(!d.on_input(5));
    assert_eq!(d.on_signal(Signal::NeedInput), Action::ReadInput);
    assert!(d.on_input(0));
    assert_eq!(d.on_signal(Signal::InvalidInput), Action::Fail(Signal::InvalidInput));
}

#[test]
fn one_shot_capacity() {
    assert_eq!(output_capacity(7, 7), Some(28));
    assert_eq!(output_capacity(0, 0), Some(0));
    assert_eq!(output_capacity(0x7FFF_FFFF, 0), Some(0xFFFF_FFFE));
    assert_eq!(output_capacity(0x7FFF_FFFF, 1), None);
    assert_eq!(output_capacity(0x8000_0000, 0), None);
}

#[test]
fn one_shot_result() {
    assert_eq!(output_len(0, 20, 28), Some(20));
    assert_eq!(output_len(0, 29, 28), None);
    assert_eq!(output_len(-17712, 20, 28), None);
}
