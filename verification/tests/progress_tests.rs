use framegen::progress::Phase;
use framegen::progress::Progress;

#[test]
fn assembly_after_exactly_all_signals() {
    let mut progress = Progress::new(4);
    assert_eq!(progress.frame_count(), 4);
    assert_eq!(progress.completed(), 0);
    assert!(!progress.is_complete());
    assert_eq!(progress.phase(), Phase::Rendering);
    assert_eq!(progress.signal(), Phase::Rendering);
    assert_eq!(progress.signal(), Phase::Rendering);
    assert_eq!(progress.signal(), Phase::Rendering);
    assert_eq!(progress.completed(), 3);
    assert!(!progress.is_complete());
    assert_eq!(progress.signal(), Phase::Assembling);
    assert_eq!(progress.completed(), 4);
    assert!(progress.is_complete());
    assert_eq!(progress.phase(), Phase::Assembling);
}

#[test]
fn fewer_signals_never_release_assembly() {
    for total in 1..20usize {
        let mut progress = Progress::new(total);
        for seen in 1..total {
            assert_eq!(progress.signal(), Phase::Rendering);
            assert_eq!(progress.completed(), seen);
            assert!(!progress.is_complete());
        }
        assert_eq!(progress.signal(), Phase::Assembling);
        assert_eq!(progress.completed(), total);
    }
}

#[test]
fn surplus_signal_changes_nothing() {
    let mut progress = Progress::new(1);
    assert_eq!(progress.signal(), Phase::Assembling);
    assert_eq!(progress.signal(), Phase::Assembling);
    assert_eq!(progress.completed(), 1);
    assert_eq!(progress.frame_count(), 1);
}

#[test]
fn empty_run_is_complete_at_once() {
    let progress = Progress::new(0);
    assert!(progress.is_complete());
    assert_eq!(progress.phase(), Phase::Assembling);
    assert_eq!(progress.completed(), 0);
}
