use std::sync::atomic::{AtomicU64, Ordering};
use std::sync::Arc;

use boopsynth::note::{Note, SpecifiedNote};
use boopsynth::marker::Marker;
use boopsynth::sequencer::{note_slot, plan_sequence, progress_values, sequence_markers, total_steps, Progress, Slot};

#[test]
fn two_beats_one_division_reports_zero_one_two() {
    assert_eq!(progress_values(2, &vec![0, 0, 0, 1, 1, 1]), vec![0, 1, 2]);
    assert_eq!(progress_values(2, &vec![1]), vec![0, 1, 2]);
}

#[test]
fn reports_skip_stale_and_repeated_readings() {
    assert_eq!(progress_values(4, &vec![0, 2, 1, 2, 3, 3]), vec![0, 2, 3, 4]);
}

#[test]
fn reports_stop_short_without_final_reading() {
    assert_eq!(progress_values(4, &vec![1, 2]), vec![0, 1, 2]);
}

#[test]
fn single_step_sequence_finishes_at_once() {
    assert_eq!(progress_values(1, &vec![]), vec![0, 1]);
    assert_eq!(progress_values(0, &vec![5]), vec![0]);
}

#[test]
fn progress_tracker_suppresses_duplicates() {
    let mut p = Progress::new(3);
    assert!(p.polling());
    assert_eq!(p.observe(0), None);
    assert_eq!(p.observe(1), Some(1));
    assert_eq!(p.observe(1), None);
    assert!(p.polling());
    assert_eq!(p.observe(7), None);
    assert_eq!(p.observe(2), Some(2));
    assert!(!p.polling());
    assert_eq!(p.finish(), 3);
}

#[test]
fn sequence_plan_has_one_marker_per_step() {
    let notes = vec![SpecifiedNote { note: Note::D, octave: 4, position: 3, length: 2 }];
    let plan = plan_sequence(2, 2, &notes);
    assert_eq!(plan.total, 4);
    assert_eq!(plan.notes, vec![(notes[0], Slot { start: 3, length: 2 })]);
    assert_eq!(
        plan.markers,
        vec![
            (0, Slot { start: 0, length: 1 }),
            (1, Slot { start: 1, length: 1 }),
            (2, Slot { start: 2, length: 1 }),
            (3, Slot { start: 3, length: 1 }),
        ]
    );
    assert_eq!(total_steps(3, 4), 12);
    assert_eq!(note_slot(&notes[0]), Slot { start: 3, length: 2 });
}

#[test]
fn markers_stamp_their_own_counter() {
    let first = Arc::new(AtomicU64::new(0));
    let second = Arc::new(AtomicU64::new(0));
    let a = Marker::new(5, Arc::clone(&first));
    let b = Marker::new(9, Arc::clone(&second));
    a.tick();
    assert_eq!(first.load(Ordering::Relaxed), 5);
    assert_eq!(second.load(Ordering::Relaxed), 0);
    b.tick();
    assert_eq!(second.load(Ordering::Relaxed), 9);
    let c = Marker::new(6, Arc::clone(&first));
    c.tick();
    a.tick();
    assert_eq!(first.load(Ordering::Relaxed), 5);
    assert_eq!(second.load(Ordering::Relaxed), 9);
}

#[test]
fn independent_sequences_report_independently() {
    let mut a = Progress::new(3);
    let mut b = Progress::new(2);
    assert_eq!(a.observe(1), Some(1));
    assert_eq!(b.observe(1), Some(1));
    assert!(!b.polling());
    assert!(a.polling());
    assert_eq!(a.observe(2), Some(2));
    assert_eq!((a.finish(), b.finish()), (3, 2));
}

#[test]
fn each_sequence_stamps_only_its_own_counter() {
    let first = Arc::new(AtomicU64::new(0));
    let second = Arc::new(AtomicU64::new(0));
    let plan_a = plan_sequence(3, 1, &vec![]);
    let plan_b = plan_sequence(2, 2, &vec![]);
    let a = sequence_markers(&plan_a.markers, &first);
    let b = sequence_markers(&plan_b.markers, &second);
    assert_eq!(a.len(), 3);
    assert_eq!(b.len(), 4);
    let mut pa = Progress::new(plan_a.total);
    let mut pb = Progress::new(plan_b.total);
    let mut sent_a = vec![0];
    let mut sent_b = vec![0];
    for step in 0..4 {
        if step < a.len() {
            a[step].0.tick();
        }
        b[step].0.tick();
        if let Some(v) = pa.observe(first.load(Ordering::Relaxed)) {
            sent_a.push(v);
        }
        if let Some(v) = pb.observe(second.load(Ordering::Relaxed)) {
            sent_b.push(v);
        }
    }
    assert!(!pa.polling() && !pb.polling());
    sent_a.push(pa.finish());
    sent_b.push(pb.finish());
    assert_eq!(sent_a, vec![0, 1, 2, 3]);
    assert_eq!(sent_b, vec![0, 1, 2, 3, 4]);
    assert_eq!(a[2].1, Slot { start: 2, length: 1 });
}
