use mui::SeqGuard;

#[test]
fn element_by_element_initialization() {
    let mut array: [Option<u32>; 8] = [None; 8];
    let mut guard_seq = SeqGuard::new(&mut array);
    for (i, guard) in guard_seq.iter_mut().enumerate() {
        guard.write((i * i) as u32);
    }
    guard_seq.finish().unwrap();
    let values: Vec<u32> = array.iter().map(|v| v.unwrap()).collect();
    assert_eq!(values, vec![0, 1, 4, 9, 16, 25, 36, 49]);
}

#[test]
fn seq_get_ref_and_bounds() {
    let mut array: [Option<u32>; 3] = [None; 3];
    let mut guard_seq = SeqGuard::new(&mut array);
    assert_eq!(guard_seq.get_ref(0), None);
    guard_seq[1].write(11);
    assert_eq!(guard_seq.get_ref(1), Some(&11));
    assert_eq!(guard_seq.get_ref(2), None);
    assert_eq!(guard_seq.get_ref(3), None);
    assert_eq!(guard_seq.len(), 3);
}

#[test]
fn seq_get_mut_overwrites() {
    let mut array: [Option<u32>; 2] = [None; 2];
    let mut guard_seq = SeqGuard::new(&mut array);
    assert!(guard_seq.get_mut(0).is_none());
    assert!(guard_seq.get_mut(5).is_none());
    guard_seq[0].write(1);
    guard_seq[1].write(2);
    *guard_seq.get_mut(0).unwrap() = 10;
    guard_seq.finish().unwrap();
    assert_eq!(array, [Some(10), Some(2)]);
}

#[test]
fn seq_finish_fails_unless_all_inited() {
    let mut array: [Option<u32>; 3] = [Some(7), None, None];
    let mut guard_seq = SeqGuard::new(&mut array);
    guard_seq[0].write(1);
    guard_seq[2].write(3);
    assert!(!guard_seq.is_all_inited());
    let back = guard_seq.finish().unwrap_err();
    assert_eq!(back.get_ref(0), Some(&1));
    drop(back);
    assert_eq!(array, [None, None, None]);
}

#[test]
fn seq_finish_unchecked_moves_held_values() {
    let mut array: [Option<u32>; 3] = [Some(7), Some(8), None];
    let mut guard_seq = SeqGuard::new(&mut array);
    guard_seq[1].write(80);
    guard_seq.finish_unchecked();
    assert_eq!(array, [Some(7), Some(80), None]);
}

#[test]
fn empty_seq_is_all_inited() {
    let mut array: [Option<u32>; 0] = [];
    let guard_seq = SeqGuard::new(&mut array);
    assert!(guard_seq.is_all_inited());
    assert!(guard_seq.finish().is_ok());
}

struct DropCounter(std::rc::Rc<std::cell::Cell<u32>>);

impl Drop for DropCounter {
    fn drop(&mut self) {
        self.0.set(self.0.get() + 1);
    }
}

#[test]
fn dropped_seq_drops_values() {
    let drops = std::rc::Rc::new(std::cell::Cell::new(0));
    let mut array: [Option<DropCounter>; 3] = [None, None, None];
    {
        let mut guard_seq = SeqGuard::new(&mut array);
        guard_seq[0].write(DropCounter(drops.clone()));
        guard_seq[2].write(DropCounter(drops.clone()));
    }
    assert_eq!(drops.get(), 2);
    assert!(array.iter().all(|s| s.is_none()));
}
