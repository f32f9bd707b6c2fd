use std::cell::RefCell;
use std::rc::Rc;

use edile::project::Lt;
use edile::{
    array_each, move_from, proj_fn, slice_each, Init, Own, Region, Run, Slot, Span, Storage,
    Uninit,
};

/// A value that records its destruction in a shared log.
struct Noisy {
    id: u32,
    log: Rc<RefCell<Vec<u32>>>,
}

impl Drop for Noisy {
    fn drop(&mut self) {
        self.log.borrow_mut().push(self.id);
    }
}

fn noisy(id: u32, log: &Rc<RefCell<Vec<u32>>>) -> Noisy {
    Noisy { id, log: Rc::clone(log) }
}

fn write_ctor<T>(value: T) -> impl FnOnce(Region<T>, Uninit) -> (Region<T>, Init) {
    move |mut region: Region<T>, place: Uninit| {
        let proof = place.init(&mut region, value);
        (region, proof)
    }
}

#[test]
fn reserve_appends_vacant_slots() {
    let mut region: Region<u8> = Region::new();
    let a = region.reserve(2);
    let b = region.reserve(3);
    assert_eq!(a, Span { start: 0, len: 2 });
    assert_eq!(b, Span { start: 2, len: 3 });
    assert_eq!(region.len(), 5);
    for i in 0..5 {
        assert!(region.is_vacant(i));
        assert!(region.get(i).is_none());
    }
    assert!(region.drops().is_empty());
}

#[test]
fn storage_names_the_same_place_every_time() {
    let mut slot = Slot::new(4);
    assert_eq!(slot.as_mut_ptr(), Span { start: 4, len: 1 });
    assert_eq!(slot.as_mut_ptr(), Span { start: 4, len: 1 });
    let mut run = Run::new(Span { start: 2, len: 3 });
    assert_eq!(run.as_mut_ptr(), Span { start: 2, len: 3 });
    assert_eq!(run.as_mut_ptr(), Span { start: 2, len: 3 });
}

#[test]
fn span_nth_and_single() {
    let s = Span { start: 3, len: 4 };
    assert_eq!(s.nth(0), Span { start: 3, len: 1 });
    assert_eq!(s.nth(3), Span { start: 6, len: 1 });
    assert_eq!(Span::single(9), Span { start: 9, len: 1 });
}

#[test]
fn init_writes_and_proves_the_slot() {
    let mut region: Region<u32> = Region::new();
    let s = region.reserve(2);
    let place = Uninit::from_ptr(s.nth(1));
    assert_eq!(place.len(), 1);
    assert_eq!(place.as_mut_ptr(), Span { start: 1, len: 1 });
    let proof = place.init(&mut region, 42);
    assert_eq!(proof.span(), Span { start: 1, len: 1 });
    assert_eq!(*proof.get(&region), 42);
    assert!(region.is_vacant(0));
    assert_eq!(region.get(1), Some(&42));
    assert!(region.drops().is_empty());
}

#[test]
fn init_with_runs_the_constructor() {
    let mut region: Region<u32> = Region::new();
    let s = region.reserve(1);
    let proof = Uninit::from_ptr(s).init_with(&mut region, write_ctor(7));
    assert_eq!(proof.span(), s);
    assert_eq!(region.get(0), Some(&7));
}

#[test]
fn assume_init_on_a_filled_place() {
    let mut region: Region<u32> = Region::new();
    let s = region.reserve(1);
    let _ = Uninit::from_ptr(s).init(&mut region, 3);
    let proof = Uninit::from_ptr(s).assume_init(&region);
    assert_eq!(proof.span(), s);
    assert_eq!(*proof.get(&region), 3);
}

#[test]
fn init_replace_returns_old_value() {
    let mut region: Region<u32> = Region::new();
    let s = region.reserve(1);
    let proof = Uninit::from_ptr(s).init(&mut region, 1);
    assert_eq!(proof.replace(&mut region, 2), 1);
    assert_eq!(*proof.get(&region), 2);
    assert!(region.drops().is_empty());
}

#[test]
fn init_drop_destroys_once() {
    let log = Rc::new(RefCell::new(Vec::new()));
    let mut region: Region<Noisy> = Region::new();
    let s = region.reserve(1);
    let proof = Uninit::from_ptr(s).init(&mut region, noisy(5, &log));
    proof.drop(&mut region);
    assert_eq!(*log.borrow(), vec![5]);
    assert_eq!(region.drops(), &vec![0]);
    assert!(region.is_vacant(0));
}

#[test]
fn own_drop_destroys_exactly_once() {
    let log = Rc::new(RefCell::new(Vec::new()));
    let mut region: Region<Noisy> = Region::new();
    let _ = region.reserve(2);
    let mut slot = Slot::new(1);
    let own = Own::new_with(&mut region, &mut slot, write_ctor(noisy(8, &log)));
    assert_eq!(own.span(), Span { start: 1, len: 1 });
    assert_eq!(own.get(&region).id, 8);
    assert!(log.borrow().is_empty());
    assert!(region.drops().is_empty());
    own.drop(&mut region);
    assert_eq!(*log.borrow(), vec![8]);
    assert_eq!(region.drops(), &vec![1]);
    drop(region);
    assert_eq!(*log.borrow(), vec![8]);
}

#[test]
fn own_leak_destroys_nothing() {
    let log = Rc::new(RefCell::new(Vec::new()));
    let mut region: Region<Noisy> = Region::new();
    let _ = region.reserve(1);
    let own = Own::new_with(&mut region, &mut Slot::new(0), write_ctor(noisy(1, &log)));
    let place = Own::leak(own);
    assert_eq!(place, Span { start: 0, len: 1 });
    assert!(log.borrow().is_empty());
    assert!(region.drops().is_empty());
    assert_eq!(region.get(0).map(|t| t.id), Some(1));
}

#[test]
fn own_from_raw_takes_a_filled_place() {
    let mut region: Region<u8> = Region::new();
    let s = region.reserve(1);
    let _ = Uninit::from_ptr(s).init(&mut region, 9);
    let own = Own::from_raw(&region, s);
    assert_eq!(*own.get(&region), 9);
    let proof = Init::from_raw(&region, s);
    assert_eq!(proof.span(), s);
}

#[test]
fn round_trip_through_own() {
    let mut region: Region<String> = Region::new();
    let _ = region.reserve(1);
    let own = Own::new_with(&mut region, &mut Slot::new(0), write_ctor(String::from("edile")));
    let back = Own::into_inner(own, &mut region);
    assert_eq!(back, "edile");
    assert!(region.is_vacant(0));
    assert!(region.drops().is_empty());
}

#[test]
fn into_inner_does_not_destroy() {
    let log = Rc::new(RefCell::new(Vec::new()));
    let mut region: Region<Noisy> = Region::new();
    let _ = region.reserve(1);
    let own = Own::new_with(&mut region, &mut Slot::new(0), write_ctor(noisy(4, &log)));
    let value = Own::into_inner(own, &mut region);
    assert!(log.borrow().is_empty());
    assert!(region.drops().is_empty());
    drop(value);
    assert_eq!(*log.borrow(), vec![4]);
}

#[test]
fn move_from_relocates_without_destroying() {
    let mut region: Region<Vec<u8>> = Region::new();
    let _ = region.reserve(2);
    let src = Own::new_with(&mut region, &mut Slot::new(0), write_ctor(vec![1, 2, 3]));
    let dst = Own::new_with(
        &mut region,
        &mut Slot::new(1),
        |mut r: Region<Vec<u8>>, place: Uninit| {
            let proof = move_from(&mut r, src, place);
            (r, proof)
        },
    );
    assert_eq!(dst.span(), Span { start: 1, len: 1 });
    assert_eq!(dst.get(&region), &vec![1, 2, 3]);
    assert!(region.is_vacant(0));
    assert!(region.drops().is_empty());
}

#[test]
fn move_from_destroys_only_at_destination() {
    let log = Rc::new(RefCell::new(Vec::new()));
    let mut region: Region<Noisy> = Region::new();
    let _ = region.reserve(2);
    let src = Own::new_with(&mut region, &mut Slot::new(0), write_ctor(noisy(6, &log)));
    let proof = move_from(&mut region, src, Uninit::from_ptr(Span::single(1)));
    assert!(log.borrow().is_empty());
    proof.drop(&mut region);
    assert_eq!(*log.borrow(), vec![6]);
    assert_eq!(region.drops(), &vec![1]);
}

#[test]
fn slice_each_fills_every_element() {
    let mut region: Region<u64> = Region::new();
    let _ = region.reserve(1);
    let s = region.reserve(4);
    let proof = slice_each(&mut region, Uninit::from_ptr(s), |i: usize| Some(i as u64 * 10)).unwrap();
    assert_eq!(proof.span(), s);
    let got: Vec<u64> = (1..5).map(|i| *region.get(i).unwrap()).collect();
    assert_eq!(got, vec![0, 10, 20, 30]);
    assert!(region.is_vacant(0));
    assert!(region.drops().is_empty());
}

#[test]
fn slice_each_empty_sequence() {
    let mut region: Region<u64> = Region::new();
    let s = region.reserve(0);
    let proof = slice_each(&mut region, Uninit::from_ptr(s), |_: usize| None).unwrap();
    assert_eq!(proof.span(), Span { start: 0, len: 0 });
    assert!(region.drops().is_empty());
}

#[test]
fn slice_each_failure_at_third_element() {
    let log = Rc::new(RefCell::new(Vec::new()));
    let mut region: Region<Noisy> = Region::new();
    let s = region.reserve(3);
    let calls = RefCell::new(Vec::new());
    let result = slice_each(&mut region, Uninit::from_ptr(s), |i: usize| {
        calls.borrow_mut().push(i);
        if i < 2 {
            Some(noisy(i as u32, &log))
        } else {
            None
        }
    });
    assert!(matches!(result, Err(2)));
    assert_eq!(*calls.borrow(), vec![0, 1, 2]);
    assert_eq!(*log.borrow(), vec![0, 1]);
    assert_eq!(region.drops(), &vec![0, 1]);
    for i in 0..3 {
        assert!(region.is_vacant(i));
    }
}

#[test]
fn slice_each_failure_at_first_element() {
    let mut region: Region<u8> = Region::new();
    let s = region.reserve(2);
    let result = slice_each(&mut region, Uninit::from_ptr(s), |_: usize| None);
    assert!(matches!(result, Err(0)));
    assert!(region.drops().is_empty());
}

#[test]
fn array_each_fills_in_order() {
    let mut region: Region<u32> = Region::new();
    let s = region.reserve(3);
    let proof = array_each::<u32, _, 3>(&mut region, Uninit::from_ptr(s), |i: usize| {
        Some(i as u32 + 100)
    })
    .unwrap();
    assert_eq!(proof.span(), s);
    assert_eq!(region.get(0), Some(&100));
    assert_eq!(region.get(1), Some(&101));
    assert_eq!(region.get(2), Some(&102));
}

#[test]
fn array_each_rolls_back_built_elements() {
    let log = Rc::new(RefCell::new(Vec::new()));
    let mut region: Region<Noisy> = Region::new();
    let _ = region.reserve(2);
    let s = region.reserve(4);
    let result = array_each::<Noisy, _, 4>(&mut region, Uninit::from_ptr(s), |i: usize| {
        if i < 3 {
            Some(noisy(10 + i as u32, &log))
        } else {
            None
        }
    });
    assert!(matches!(result, Err(3)));
    assert_eq!(*log.borrow(), vec![10, 11, 12]);
    assert_eq!(region.drops(), &vec![2, 3, 4]);
    for i in 0..6 {
        assert!(region.is_vacant(i));
    }
}

#[test]
fn pair_built_field_one_first() {
    let log = Rc::new(RefCell::new(Vec::new()));
    let mut region: Region<Noisy> = Region::new();
    let s = region.reserve(2);
    let order = RefCell::new(Vec::new());
    let proof = proj_fn::<(Noisy, Noisy), Noisy, _>(
        &mut region,
        Uninit::from_ptr(s),
        |_: Lt, mut r: Region<Noisy>, (a, b): (Uninit, Uninit)| {
            order.borrow_mut().push(b.as_mut_ptr().start);
            let pb = b.init(&mut r, noisy(1, &log));
            order.borrow_mut().push(a.as_mut_ptr().start);
            let pa = a.init(&mut r, noisy(0, &log));
            (r, (pa, pb))
        },
    );
    assert_eq!(*order.borrow(), vec![1, 0]);
    assert_eq!(proof.span(), s);
    let own = Own::from_raw(&region, proof.span());
    assert!(log.borrow().is_empty());
    own.drop(&mut region);
    assert_eq!(*log.borrow(), vec![0, 1]);
    assert_eq!(region.drops(), &vec![0, 1]);
}

#[test]
fn array_projection_by_fields() {
    let mut region: Region<u16> = Region::new();
    let _ = region.reserve(1);
    let s = region.reserve(3);
    let proof = proj_fn::<[u16; 3], u16, _>(
        &mut region,
        Uninit::from_ptr(s),
        |_: Lt, mut r: Region<u16>, places: Vec<Uninit>| {
            let mut proofs = Vec::new();
            for (k, place) in places.into_iter().enumerate() {
                assert_eq!(place.as_mut_ptr(), Span { start: 1 + k, len: 1 });
                proofs.push(place.init(&mut r, k as u16 * 2));
            }
            (r, proofs)
        },
    );
    assert_eq!(proof.span(), s);
    assert_eq!(region.get(1), Some(&0));
    assert_eq!(region.get(2), Some(&2));
    assert_eq!(region.get(3), Some(&4));
}

#[test]
fn own_over_a_run_destroys_in_order() {
    let log = Rc::new(RefCell::new(Vec::new()));
    let mut region: Region<Noisy> = Region::new();
    let s = region.reserve(3);
    let log2 = Rc::clone(&log);
    let own = Own::new_with(&mut region, &mut Run::new(s), move |mut r: Region<Noisy>, place: Uninit| {
        let proof = slice_each(&mut r, place, |i: usize| Some(noisy(20 + i as u32, &log2)))
            .ok()
            .unwrap();
        (r, proof)
    });
    assert_eq!(own.span(), s);
    own.drop(&mut region);
    assert_eq!(*log.borrow(), vec![20, 21, 22]);
    assert_eq!(region.drops(), &vec![0, 1, 2]);
}

#[test]
fn triple_built_in_any_order() {
    let mut region: Region<i32> = Region::new();
    let _ = region.reserve(2);
    let s = region.reserve(3);
    let proof = proj_fn::<(i32, i32, i32), i32, _>(
        &mut region,
        Uninit::from_ptr(s),
        |_: Lt, mut r: Region<i32>, (a, b, c): (Uninit, Uninit, Uninit)| {
            let pc = c.init(&mut r, -3);
            let pa = a.init(&mut r, -1);
            let pb = b.init(&mut r, -2);
            (r, (pa, pb, pc))
        },
    );
    assert_eq!(proof.span(), Span { start: 2, len: 3 });
    assert_eq!(region.get(2), Some(&-1));
    assert_eq!(region.get(3), Some(&-2));
    assert_eq!(region.get(4), Some(&-3));
    assert!(region.is_vacant(0));
    assert!(region.is_vacant(1));
}

#[test]
fn single_field_tuple() {
    let mut region: Region<u8> = Region::new();
    let s = region.reserve(1);
    let proof = proj_fn::<(u8,), u8, _>(
        &mut region,
        Uninit::from_ptr(s),
        |_: Lt, mut r: Region<u8>, (a,): (Uninit,)| {
            let pa = a.init(&mut r, 200);
            (r, (pa,))
        },
    );
    assert_eq!(proof.span(), s);
    assert_eq!(*proof.get(&region), 200);
}

#[test]
fn eight_field_tuple_places() {
    let mut region: Region<usize> = Region::new();
    let s = region.reserve(8);
    type Eight = (u8, u8, u8, u8, u8, u8, u8, u8);
    let proof = proj_fn::<Eight, usize, _>(
        &mut region,
        Uninit::from_ptr(s),
        |_: Lt,
         mut r: Region<usize>,
         (a, b, c, d, e, f, g, h): (Uninit, Uninit, Uninit, Uninit, Uninit, Uninit, Uninit, Uninit)| {
            let ph = h.init(&mut r, 7);
            let pa = a.init(&mut r, 0);
            let pb = b.init(&mut r, 1);
            let pc = c.init(&mut r, 2);
            let pd = d.init(&mut r, 3);
            let pe = e.init(&mut r, 4);
            let pf = f.init(&mut r, 5);
            let pg = g.init(&mut r, 6);
            (r, (pa, pb, pc, pd, pe, pf, pg, ph))
        },
    );
    assert_eq!(proof.span(), s);
    for i in 0..8 {
        assert_eq!(region.get(i), Some(&i));
    }
}

#[test]
fn array_each_empty_array() {
    let mut region: Region<u8> = Region::new();
    let s = region.reserve(0);
    let proof = array_each::<u8, _, 0>(&mut region, Uninit::from_ptr(s), |_: usize| None).unwrap();
    assert_eq!(proof.span(), Span { start: 0, len: 0 });
    assert!(region.drops().is_empty());
}

#[test]
fn own_replace_keeps_ownership() {
    let log = Rc::new(RefCell::new(Vec::new()));
    let mut region: Region<Noisy> = Region::new();
    let _ = region.reserve(1);
    let own = Own::new_with(&mut region, &mut Slot::new(0), write_ctor(noisy(1, &log)));
    let old = own.replace(&mut region, noisy(2, &log));
    assert_eq!(old.id, 1);
    drop(old);
    assert_eq!(*log.borrow(), vec![1]);
    assert!(region.drops().is_empty());
    own.drop(&mut region);
    assert_eq!(*log.borrow(), vec![1, 2]);
    assert_eq!(region.drops(), &vec![0]);
}

#[test]
fn pinned_owner_reads_and_destroys_in_place() {
    let log = Rc::new(RefCell::new(Vec::new()));
    let mut region: Region<Noisy> = Region::new();
    let _ = region.reserve(2);
    let own = Own::new_with(&mut region, &mut Slot::new(1), write_ctor(noisy(3, &log)));
    let pinned = Own::into_pin(own);
    assert_eq!(pinned.span(), Span { start: 1, len: 1 });
    assert_eq!(pinned.get(&region).id, 3);
    assert!(log.borrow().is_empty());
    pinned.drop(&mut region);
    assert_eq!(*log.borrow(), vec![3]);
    assert_eq!(region.drops(), &vec![1]);
}

#[test]
fn pinned_proof_keeps_destruction_duty() {
    let log = Rc::new(RefCell::new(Vec::new()));
    let mut region: Region<Noisy> = Region::new();
    let s = region.reserve(1);
    let proof = Uninit::from_ptr(s).init(&mut region, noisy(9, &log));
    let pinned = Init::into_pin(proof);
    assert_eq!(pinned.span(), s);
    pinned.drop(&mut region);
    assert_eq!(*log.borrow(), vec![9]);
}

#[test]
fn pair_fields_hold_their_own_values() {
    let mut region: Region<u32> = Region::new();
    let s = region.reserve(2);
    let proof = proj_fn::<(u32, u32), u32, _>(
        &mut region,
        Uninit::from_ptr(s),
        |_: Lt, mut r: Region<u32>, (a, b): (Uninit, Uninit)| {
            let pb = b.init(&mut r, 1);
            let pa = a.init(&mut r, 0);
            (r, (pa, pb))
        },
    );
    let own = Own::from_raw(&region, proof.span());
    assert_eq!(own.span(), s);
    assert_eq!(region.get(0), Some(&0));
    assert_eq!(region.get(1), Some(&1));
    assert!(region.drops().is_empty());
}

#[test]
fn move_from_relocates_a_built_array() {
    let log = Rc::new(RefCell::new(Vec::new()));
    let mut region: Region<Noisy> = Region::new();
    let src_place = region.reserve(3);
    let dst_place = region.reserve(3);
    let proof = array_each::<Noisy, _, 3>(&mut region, Uninit::from_ptr(src_place), |i: usize| {
        Some(noisy(30 + i as u32, &log))
    })
    .ok()
    .unwrap();
    let src = Own::from_raw(&region, proof.span());
    let moved = move_from(&mut region, src, Uninit::from_ptr(dst_place));
    assert_eq!(moved.span(), Span { start: 3, len: 3 });
    for i in 0..3 {
        assert!(region.is_vacant(i));
        assert_eq!(region.get(3 + i).map(|t| t.id), Some(30 + i as u32));
    }
    assert!(log.borrow().is_empty());
    assert!(region.drops().is_empty());
    moved.drop(&mut region);
    assert_eq!(*log.borrow(), vec![30, 31, 32]);
    assert_eq!(region.drops(), &vec![3, 4, 5]);
}

#[test]
fn move_from_into_a_new_owner_of_a_pair() {
    let mut region: Region<String> = Region::new();
    let s = region.reserve(2);
    let proof = proj_fn::<(String, String), String, _>(
        &mut region,
        Uninit::from_ptr(s),
        |_: Lt, mut r: Region<String>, (a, b): (Uninit, Uninit)| {
            let pb = b.init(&mut r, String::from("right"));
            let pa = a.init(&mut r, String::from("left"));
            (r, (pa, pb))
        },
    );
    let src = Own::from_raw(&region, proof.span());
    let dst_place = region.reserve(2);
    let dst = Own::new_with(
        &mut region,
        &mut Run::new(dst_place),
        |mut r: Region<String>, place: Uninit| {
            let p = move_from(&mut r, src, place);
            (r, p)
        },
    );
    assert_eq!(dst.span(), Span { start: 2, len: 2 });
    assert!(region.is_vacant(0));
    assert!(region.is_vacant(1));
    let values = Own::into_values(dst, &mut region);
    assert_eq!(values, vec![String::from("left"), String::from("right")]);
    assert!(region.is_vacant(2));
    assert!(region.is_vacant(3));
    assert!(region.drops().is_empty());
}

#[test]
fn into_values_takes_every_slot_in_order() {
    let log = Rc::new(RefCell::new(Vec::new()));
    let mut region: Region<Noisy> = Region::new();
    let _ = region.reserve(1);
    let s = region.reserve(3);
    let proof = slice_each(&mut region, Uninit::from_ptr(s), |i: usize| Some(noisy(i as u32, &log)))
        .ok()
        .unwrap();
    let own = Own::from_raw(&region, proof.span());
    let values = Own::into_values(own, &mut region);
    assert_eq!(values.iter().map(|t| t.id).collect::<Vec<u32>>(), vec![0, 1, 2]);
    assert!(log.borrow().is_empty());
    assert!(region.drops().is_empty());
    for i in 1..4 {
        assert!(region.is_vacant(i));
    }
    drop(values);
    assert_eq!(*log.borrow(), vec![0, 1, 2]);
}

#[test]
fn into_values_of_an_empty_place() {
    let mut region: Region<u8> = Region::new();
    let s = region.reserve(0);
    let proof = slice_each(&mut region, Uninit::from_ptr(s), |_: usize| None).unwrap();
    let own = Own::from_raw(&region, proof.span());
    assert!(Own::into_values(own, &mut region).is_empty());
}
