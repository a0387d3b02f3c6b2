use status_line::signal::{
    combine, combine_all, dedup, flatten_result_stream, follow_latest, from_future,
    DeferredEvent, Either, Emission, Flattened, FollowEvent,
};

fn run_dedup(items: Vec<i32>) -> Vec<i32> {
    let mut d = dedup();
    let mut out = Vec::new();
    for x in items {
        if let Some(y) = d.step(x) {
            out.push(y);
        }
    }
    out
}

#[test]
fn dedup_emits_run_leaders() {
    assert_eq!(run_dedup(vec![1, 1, 2, 2, 2, 3, 1, 1]), vec![1, 2, 3, 1]);
}

#[test]
fn dedup_output_has_no_adjacent_duplicates_and_is_stable() {
    let once = run_dedup(vec![5, 5, 5, 7, 7, 5, 9, 9, 9, 9]);
    assert_eq!(once, vec![5, 7, 5, 9]);
    for w in once.windows(2) {
        assert_ne!(w[0], w[1]);
    }
    assert_eq!(run_dedup(once.clone()), once);
}

#[test]
fn dedup_empty_and_strings() {
    assert_eq!(run_dedup(vec![]), Vec::<i32>::new());
    let mut d = dedup();
    assert_eq!(d.step(Some("50%".to_string())), Some(Some("50%".to_string())));
    assert_eq!(d.step(Some("50%".to_string())), None);
    assert_eq!(d.step(None), Some(None));
    assert_eq!(d.step(Some("50%".to_string())), Some(Some("50%".to_string())));
}

fn last_pair(order: &[u8]) -> (Option<&'static str>, Option<&'static str>) {
    let mut c = combine();
    let mut a = vec!["a1", "a2"].into_iter();
    let mut last = (None, None);
    for side in order {
        let ev = if *side == b'a' {
            Either::Left(a.next().unwrap())
        } else {
            Either::Right("b1")
        };
        last = c.step(ev);
    }
    last
}

#[test]
fn combine_last_pair_in_every_interleaving() {
    for order in [b"aab", b"aba", b"baa"] {
        assert_eq!(last_pair(order), (Some("a2"), Some("b1")));
    }
}

#[test]
fn combine_with_absence_emits_none_for_silent_side() {
    let mut c = combine::<i32, &str>();
    assert_eq!(c.step(Either::Left(1)), (Some(1), None));
    assert_eq!(c.step(Either::Left(2)), (Some(2), None));
    assert_eq!(c.step(Either::Right("x")), (Some(2), Some("x")));
}

#[test]
fn combine_strict_waits_for_both_sides() {
    let mut c = combine::<i32, &str>();
    assert_eq!(c.step_strict(Either::Left(1)), None);
    assert_eq!(c.step_strict(Either::Left(2)), None);
    assert_eq!(c.step_strict(Either::Right("x")), Some((2, "x")));
    assert_eq!(c.step_strict(Either::Left(3)), Some((3, "x")));
}

#[test]
fn combine_all_keeps_slots_by_index() {
    let mut c = combine_all::<&str>(3);
    assert_eq!(c.len(), 3);
    assert_eq!(c.snapshot(), vec![None, None, None]);
    assert_eq!(c.step(2, "c"), vec![None, None, Some("c")]);
    assert_eq!(c.step(0, "a"), vec![Some("a"), None, Some("c")]);
    assert_eq!(c.step(2, "d"), vec![Some("a"), None, Some("d")]);
    assert_eq!(c.len(), 3);
}

#[test]
fn follow_latest_drops_items_of_replaced_inner() {
    let mut f = follow_latest();
    let mut out = Vec::new();
    let events = vec![
        FollowEvent::Switch(1),
        FollowEvent::Item(1, "i1-a"),
        FollowEvent::Switch(2),
        FollowEvent::Item(1, "i1-buffered"),
        FollowEvent::Item(2, "i2-a"),
        FollowEvent::Item(1, "i1-late"),
        FollowEvent::Item(2, "i2-b"),
    ];
    for ev in events {
        if let Emission::Value(x) = f.step(ev) {
            out.push(x);
        }
    }
    assert_eq!(out, vec!["i1-a", "i2-a", "i2-b"]);
    assert_eq!(f.active(), Some(2));
}

#[test]
fn follow_latest_terminates_after_outer_and_inner() {
    let mut f = follow_latest();
    assert!(matches!(f.step(FollowEvent::Switch(7)), Emission::<u8>::Nothing));
    assert!(matches!(f.step(FollowEvent::<u8>::OuterEnd), Emission::Nothing));
    assert!(matches!(f.step(FollowEvent::Item(7, 9u8)), Emission::Value(9)));
    assert!(matches!(f.step(FollowEvent::<u8>::InnerEnd(7)), Emission::Finished));
    assert!(matches!(f.step(FollowEvent::Item(7, 1u8)), Emission::Nothing));

    let mut g = follow_latest();
    assert!(matches!(g.step(FollowEvent::<u8>::OuterEnd), Emission::Finished));
}

#[test]
fn deferred_signal_waits_for_setup() {
    let mut d = from_future();
    assert!(!d.is_ready());
    assert!(matches!(d.step(DeferredEvent::<u8>::SetupPending), Emission::Nothing));
    assert!(matches!(d.step(DeferredEvent::Item(1u8)), Emission::Nothing));
    assert!(matches!(d.step(DeferredEvent::<u8>::SetupReady), Emission::Nothing));
    assert!(d.is_ready());
    assert!(matches!(d.step(DeferredEvent::Item(2u8)), Emission::Value(2)));
    assert!(matches!(d.step(DeferredEvent::<u8>::End), Emission::Finished));
    assert!(matches!(d.step(DeferredEvent::Item(3u8)), Emission::Nothing));
}

#[test]
fn flatten_result_stream_cases() {
    let ok: Result<Vec<u8>, &str> = Ok(vec![1, 2]);
    assert!(matches!(flatten_result_stream(ok), Flattened::Signal(v) if v == vec![1, 2]));
    let err: Result<Vec<u8>, &str> = Err("boom");
    assert!(matches!(flatten_result_stream(err), Flattened::Single("boom")));
}
