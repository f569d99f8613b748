use select_n::race::{first_ready, take_first, Race, Tagged};
use select_n::tagged::{select2, select3, select4, E2, E3, E4};

fn nope() -> Option<()> {
    None
}

#[test]
fn test_simple_3() {
    assert_eq!(E3::N1(1usize), select3(Some(1), nope(), nope()).unwrap());
    assert_eq!(E3::N2(2usize), select3(nope(), Some(2), nope()).unwrap());
    assert_eq!(E3::N3(3usize), select3(nope(), nope(), Some(3)).unwrap());
    // If all the members are ready we should simply get the first one.
    assert_eq!(
        E3::N1(1usize),
        select3(Some(1), Some(2usize), Some(3usize)).unwrap()
    );
}

#[test]
fn test_simple_4() {
    assert_eq!(
        E4::N1(1usize),
        select4(Some(1), nope(), nope(), nope()).unwrap()
    );
    assert_eq!(
        E4::N2(2usize),
        select4(nope(), Some(2), nope(), nope()).unwrap()
    );
    assert_eq!(
        E4::N3(3usize),
        select4(nope(), nope(), Some(3), nope()).unwrap()
    );
    assert_eq!(
        E4::N4(4usize),
        select4(nope(), nope(), nope(), Some(4)).unwrap()
    );
}

#[test]
fn all_ready_four_gives_first() {
    let r = select4(Some(1usize), Some(2usize), Some(3usize), Some(4usize)).unwrap();
    assert_eq!(E4::N1(1), r);
    assert_eq!(0, r.position());
}

#[test]
fn nothing_ready_gives_none() {
    assert!(select2(nope(), nope()).is_none());
    assert!(select3(nope(), nope(), nope()).is_none());
    assert!(select4(nope(), nope(), nope(), nope()).is_none());
}

#[test]
fn two_members_tie_goes_left() {
    assert_eq!(Some(E2::N1(7u8)), select2(Some(7u8), Some(9u8)));
    assert_eq!(Some(E2::N2(9u8)), select2(None::<u8>, Some(9u8)));
}

#[test]
fn mixed_payload_types() {
    let r = select3(None::<u8>, Some("late"), Some(3i64)).unwrap();
    assert_eq!(E3::N2("late"), r);
    assert_eq!(1, r.position());
}

#[test]
fn later_ready_members_do_not_override() {
    let r = select4(nope(), Some(20u32), Some(30u32), Some(40u32)).unwrap();
    assert_eq!(E4::N2(20), r);
}

#[test]
fn first_ready_is_leftmost() {
    assert_eq!(Some(2), first_ready(&vec![false, false, true, true]));
    assert_eq!(Some(0), first_ready(&vec![true, true]));
    assert_eq!(None, first_ready(&vec![false, false, false]));
    assert_eq!(None, first_ready(&vec![]));
}

#[test]
fn take_first_any_arity() {
    let polls = vec![None, None, None, None, Some(50u64), Some(60u64)];
    assert_eq!(Some(Tagged { position: 4, value: 50 }), take_first(polls));
    let polls: Vec<Option<u64>> = vec![None, None, None, None, None];
    assert_eq!(None, take_first(polls));
    let polls = vec![Some(1i32), Some(2), Some(3), Some(4), Some(5)];
    assert_eq!(Some(Tagged { position: 0, value: 1 }), take_first(polls));
}

#[test]
fn race_settles_on_leftmost_and_cancels_the_rest() {
    let mut race = Race::new(4);
    assert!(!race.is_done());
    assert_eq!(4, race.arity());
    assert!(race.settle(&vec![false, false, false, false]).is_none());
    assert!(!race.is_done());
    let s = race.settle(&vec![false, true, false, true]).unwrap();
    assert_eq!(1, s.winner);
    assert_eq!(vec![0, 2, 3], s.cancel);
    assert!(race.is_done());
    assert_eq!(Some(1), race.winner());
}

#[test]
fn race_resolves_only_once() {
    let mut race = Race::new(3);
    let s = race.settle(&vec![true, true, true]).unwrap();
    assert_eq!(0, s.winner);
    assert_eq!(vec![1, 2], s.cancel);
    assert!(race.settle(&vec![false, true, false]).is_none());
    assert_eq!(Some(0), race.winner());
}

#[test]
fn race_last_member_wins_alone() {
    let mut race = Race::new(2);
    let s = race.settle(&vec![false, true]).unwrap();
    assert_eq!(1, s.winner);
    assert_eq!(vec![0], s.cancel);
}
