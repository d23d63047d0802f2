use autodiff::error::TensorError;
use autodiff::memory::allocator::{AllocError, Allocator, Global, Region};
use autodiff::memory::buffer::BufferBuilder;
use autodiff::memory::layout::Layout;
use autodiff::memory::policy::Target;
use autodiff::storage::Storage;
use std::cell::{Cell, RefCell};
use std::rc::Rc;

/// An element that reports its destruction.
#[derive(Debug)]
struct Witness {
    id: usize,
    log: Rc<RefCell<Vec<usize>>>,
}

impl Witness {
    fn new(id: usize, log: &Rc<RefCell<Vec<usize>>>) -> Witness {
        Witness { id, log: log.clone() }
    }
}

impl Drop for Witness {
    fn drop(&mut self) {
        self.log.borrow_mut().push(self.id);
    }
}

impl Clone for Witness {
    fn clone(&self) -> Witness {
        Witness { id: self.id + 100, log: self.log.clone() }
    }
}

/// Counts the regions it hands out and takes back.
struct Ledger {
    handed_out: Cell<usize>,
    taken_back: Cell<usize>,
}

impl Ledger {
    fn new() -> Rc<Ledger> {
        Rc::new(Ledger { handed_out: Cell::new(0), taken_back: Cell::new(0) })
    }
}

impl Allocator for Ledger {
    fn allocate(&self, layout: Layout) -> Result<Region, AllocError> {
        self.handed_out.set(self.handed_out.get() + 1);
        Global.allocate(layout)
    }

    fn allocate_zeroed(&self, layout: Layout) -> Result<Region, AllocError> {
        self.handed_out.set(self.handed_out.get() + 1);
        Global.allocate_zeroed(layout)
    }

    fn deallocate(&self, region: Region, layout: Layout) {
        self.taken_back.set(self.taken_back.get() + 1);
        Global.deallocate(region, layout)
    }
}

/// Refuses every request.
struct Exhausted;

impl Allocator for Exhausted {
    fn allocate(&self, _layout: Layout) -> Result<Region, AllocError> {
        Err(AllocError)
    }

    fn allocate_zeroed(&self, _layout: Layout) -> Result<Region, AllocError> {
        Err(AllocError)
    }

    fn deallocate(&self, _region: Region, _layout: Layout) {
    }
}

fn heap() -> Rc<Global> {
    Rc::new(Global)
}

#[test]
fn a_new_storage_has_no_element() {
    for numel in [1usize, 2, 5, 64] {
        let storage = Storage::<u32, Global>::new(numel, Target::Avx2, &heap()).unwrap();
        assert_eq!(storage.len(), 0);
        assert!(storage.is_empty());
        assert_eq!(storage.allocated_len(), numel);
        for index in [0usize, 1, numel - 1, numel, numel + 1, usize::MAX] {
            assert_eq!(storage.get(index), None);
        }
        assert_eq!(storage.as_slice(), &[] as &[u32]);
        storage.destroy();
    }
}

#[test]
fn a_new_storage_gives_no_mutable_element() {
    let mut storage = Storage::<u32, Global>::new(4, Target::Neon, &heap()).unwrap();
    assert!(storage.get_mut(0).is_none());
    assert!(storage.get_mut(3).is_none());
    assert!(storage.get_mut(4).is_none());
    assert_eq!(storage.as_mut_slice().len(), 0);
    storage.destroy();
}

#[test]
fn writes_are_read_back_in_order() {
    let capacity = 6usize;
    for k in 0..=capacity {
        let mut storage = Storage::<u64, Global>::new(capacity, Target::Avx2, &heap()).unwrap();
        for j in 0..k {
            storage.write_unchecked(1000 + j as u64);
            assert_eq!(storage.len(), j + 1);
        }
        assert_eq!(storage.len(), k);
        assert_eq!(storage.is_empty(), k == 0);
        for i in 0..k {
            assert_eq!(storage.get(i), Some(&(1000 + i as u64)));
            assert_eq!(*storage.direct_read(i), 1000 + i as u64);
        }
        for i in k..capacity + 2 {
            assert_eq!(storage.get(i), None);
        }
        assert_eq!(storage.as_slice().len(), k);
        storage.destroy();
    }
}

#[test]
fn a_full_storage_holds_as_many_elements_as_were_asked_for() {
    let mut storage = Storage::<u8, Global>::new(3, Target::Avx2, &heap()).unwrap();
    storage.write_unchecked(1);
    storage.write_unchecked(2);
    storage.write_unchecked(3);
    assert_eq!(storage.len(), 3);
    assert_eq!(storage.allocated_len(), 3);
    assert_eq!(storage.capacity(), 32);
    assert_eq!(storage.as_slice(), &[1, 2, 3]);
    storage.destroy();
}

#[test]
fn clear_destroys_each_live_element_once_in_ascending_order() {
    let log = Rc::new(RefCell::new(Vec::new()));
    let mut storage = Storage::<Witness, Global>::new(8, Target::Baseline, &heap()).unwrap();
    for id in 0..5 {
        storage.write_unchecked(Witness::new(id, &log));
    }
    assert_eq!(log.borrow().len(), 0);
    storage.clear();
    assert_eq!(storage.len(), 0);
    assert!(storage.is_empty());
    assert_eq!(storage.get(0).map(|t| t.id), None);
    assert_eq!(*log.borrow(), vec![0, 1, 2, 3, 4]);
    storage.clear();
    assert_eq!(*log.borrow(), vec![0, 1, 2, 3, 4]);
    storage.destroy();
    assert_eq!(*log.borrow(), vec![0, 1, 2, 3, 4]);
}

#[test]
fn clear_keeps_the_buffer_for_reuse() {
    let ledger = Ledger::new();
    let mut storage = Storage::<u32, Ledger>::new(4, Target::Avx2, &ledger).unwrap();
    let addr = storage.as_ptr();
    storage.write_unchecked(1);
    storage.write_unchecked(2);
    storage.clear();
    assert_eq!(ledger.taken_back.get(), 0);
    assert_eq!(storage.as_ptr(), addr);
    assert_eq!(storage.allocated_len(), 4);
    storage.write_unchecked(9);
    assert_eq!(storage.as_slice(), &[9]);
    storage.destroy();
    assert_eq!(ledger.handed_out.get(), 1);
    assert_eq!(ledger.taken_back.get(), 1);
}

#[test]
fn destroy_runs_one_destruction_for_each_live_element_and_one_release() {
    for k in [0usize, 1, 2, 5, 7] {
        let log = Rc::new(RefCell::new(Vec::new()));
        let ledger = Ledger::new();
        let mut storage = Storage::<Witness, Ledger>::new(7, Target::Neon, &ledger).unwrap();
        for id in 0..k {
            storage.write_unchecked(Witness::new(id, &log));
        }
        assert_eq!(ledger.handed_out.get(), 1);
        assert_eq!(ledger.taken_back.get(), 0);
        storage.destroy();
        assert_eq!(log.borrow().len(), k);
        assert_eq!(*log.borrow(), (0..k).collect::<Vec<usize>>());
        assert_eq!(ledger.handed_out.get(), 1);
        assert_eq!(ledger.taken_back.get(), 1);
    }
}

#[test]
fn a_source_of_the_declared_length_reads_back() {
    let source = vec![3u32, 1, 4, 1, 5, 9, 2, 6];
    let storage = Storage::<u32, Global>::from_vec(8, source.clone(), Target::Avx2, &heap()).unwrap();
    assert_eq!(storage.len(), 8);
    assert_eq!(storage.allocated_len(), 8);
    assert_eq!(storage.as_slice(), source.as_slice());
    for (i, value) in source.iter().enumerate() {
        assert_eq!(storage.get(i), Some(value));
    }
    assert_eq!(storage.get(8), None);
    storage.destroy();
}

#[test]
fn a_source_of_another_length_is_an_error_and_leaks_nothing() {
    let ledger = Ledger::new();
    let log = Rc::new(RefCell::new(Vec::new()));
    let source = vec![Witness::new(0, &log), Witness::new(1, &log), Witness::new(2, &log)];
    let result = Storage::<Witness, Ledger>::from_vec(2, source, Target::Avx2, &ledger);
    match result {
        Err(TensorError::InconsistentDims { expected, received }) => {
            assert_eq!(expected.dims(), &[2]);
            assert_eq!(received.dims(), &[3]);
        },
        other => panic!("expected a size mismatch, got {:?}", other.map(|s| s.len())),
    }
    assert_eq!(ledger.handed_out.get(), ledger.taken_back.get());
    assert_eq!(ledger.handed_out.get(), 0);
    assert_eq!(log.borrow().len(), 3);
}

#[test]
fn a_shorter_source_is_an_error_too() {
    let result = Storage::<u8, Global>::from_vec(4, vec![1, 2, 3], Target::Baseline, &heap());
    match result {
        Err(TensorError::InconsistentDims { expected, received }) => {
            assert_eq!(expected.dims(), &[4]);
            assert_eq!(received.dims(), &[3]);
        },
        _ => panic!("expected a size mismatch"),
    }
    let result = Storage::<u8, Global>::from_vec(0, vec![1], Target::Baseline, &heap());
    assert!(matches!(result, Err(TensorError::InconsistentDims { .. })));
}

#[test]
fn a_clone_has_equal_elements_on_a_buffer_of_its_own() {
    let ledger = Ledger::new();
    let mut first = Storage::<u32, Ledger>::new(8, Target::Avx2, &ledger).unwrap();
    for value in [10u32, 20, 30, 40, 50] {
        first.write_unchecked(value);
    }
    let mut second = first.try_clone().unwrap();
    assert_eq!(second.len(), 5);
    assert_eq!(second.allocated_len(), 8);
    assert_eq!(second.as_slice(), first.as_slice());
    assert_eq!(ledger.handed_out.get(), 2);
    assert_ne!(second.as_ptr(), first.as_ptr());
    assert_eq!(second.as_ptr() % 32, 0);

    *second.get_mut(0).unwrap() = 11;
    *first.get_mut(4).unwrap() = 55;
    assert_eq!(first.as_slice(), &[10, 20, 30, 40, 55]);
    assert_eq!(second.as_slice(), &[11, 20, 30, 40, 50]);

    second.clear();
    assert_eq!(first.len(), 5);
    first.destroy();
    second.destroy();
    assert_eq!(ledger.taken_back.get(), 2);
}

#[test]
fn a_clone_clones_each_live_element_once() {
    let log = Rc::new(RefCell::new(Vec::new()));
    let mut first = Storage::<Witness, Global>::new(4, Target::Baseline, &heap()).unwrap();
    first.write_unchecked(Witness::new(1, &log));
    first.write_unchecked(Witness::new(2, &log));
    first.direct_write(2, Witness::new(3, &log));
    let second = first.try_clone().unwrap();
    assert_eq!(second.len(), 2);
    assert_eq!(second.get(0).map(|t| t.id), Some(101));
    assert_eq!(second.get(1).map(|t| t.id), Some(102));
    assert_eq!(second.get(2).map(|t| t.id), None);
    second.destroy();
    assert_eq!(*log.borrow(), vec![101, 102]);
    first.destroy();
    assert_eq!(*log.borrow(), vec![101, 102, 1, 2]);
}

#[test]
fn a_clone_of_an_empty_storage_is_empty() {
    let first = Storage::<u32, Global>::new(3, Target::Neon, &heap()).unwrap();
    let second = first.try_clone().unwrap();
    assert_eq!(second.len(), 0);
    assert_eq!(second.allocated_len(), 3);
    first.destroy();
    second.destroy();
}

#[test]
fn from_slice_clones_the_elements() {
    let log = Rc::new(RefCell::new(Vec::new()));
    let source = vec![Witness::new(1, &log), Witness::new(2, &log), Witness::new(3, &log)];
    let storage = Storage::<Witness, Global>::from_slice(&source, Target::Avx2, &heap()).unwrap();
    assert_eq!(storage.len(), 3);
    assert_eq!(storage.allocated_len(), 3);
    let ids: Vec<usize> = storage.as_slice().iter().map(|t| t.id).collect();
    assert_eq!(ids, vec![101, 102, 103]);
    assert_eq!(source.len(), 3);
    storage.destroy();
    assert_eq!(*log.borrow(), vec![101, 102, 103]);
}

#[test]
fn filled_with_clones_the_value() {
    let storage =
        Storage::<String, Global>::filled_with(4, String::from("ab"), Target::Neon, &heap())
            .unwrap();
    assert_eq!(storage.len(), 4);
    assert_eq!(storage.allocated_len(), 4);
    for i in 0..4 {
        assert_eq!(storage.get(i).map(|s| s.as_str()), Some("ab"));
    }
    assert_eq!(storage.get(4), None);
    storage.destroy();
}

#[test]
fn copy_from_slice_copies_the_elements() {
    let source = [1.5f64, -2.25, 0.0, 1e300];
    let storage = Storage::<f64, Global>::copy_from_slice(&source, Target::Avx2, &heap()).unwrap();
    assert_eq!(storage.len(), 4);
    assert_eq!(storage.as_slice(), &source);
    assert_eq!(storage.as_ptr() % 32, 0);
    storage.destroy();
}

#[test]
fn assume_init_counts_what_was_written_raw() {
    let mut storage = Storage::<u32, Global>::new(5, Target::Avx2, &heap()).unwrap();
    storage.direct_write(0, 7);
    storage.direct_write(1, 8);
    assert_eq!(storage.written_len(), 2);
    storage.direct_write(2, 9);
    assert_eq!(storage.written_len(), 3);
    assert_eq!(storage.len(), 0);
    assert_eq!(storage.get(0), None);
    assert_eq!(storage.as_slice().len(), 0);
    storage.assume_init(3);
    assert_eq!(storage.len(), 3);
    assert_eq!(storage.as_slice(), &[7, 8, 9]);
    assert_eq!(storage.get(3), None);
    storage.assume_init(1);
    assert_eq!(storage.as_slice(), &[7]);
    storage.assume_init(2);
    assert_eq!(storage.as_slice(), &[7, 8]);
    storage.destroy();
}

#[test]
fn values_that_were_never_counted_are_not_destroyed() {
    let log = Rc::new(RefCell::new(Vec::new()));
    let mut storage = Storage::<Witness, Global>::new(4, Target::Baseline, &heap()).unwrap();
    storage.write_unchecked(Witness::new(0, &log));
    storage.direct_write(1, Witness::new(1, &log));
    storage.direct_write(2, Witness::new(2, &log));
    assert_eq!(storage.len(), 1);
    storage.clear();
    assert_eq!(*log.borrow(), vec![0]);
    storage.destroy();
    assert_eq!(*log.borrow(), vec![0]);
}

#[test]
fn a_raw_write_gives_up_the_old_value_without_destroying_it() {
    let log = Rc::new(RefCell::new(Vec::new()));
    let mut storage = Storage::<Witness, Global>::new(2, Target::Baseline, &heap()).unwrap();
    storage.write_unchecked(Witness::new(0, &log));
    storage.direct_write(0, Witness::new(5, &log));
    assert_eq!(log.borrow().len(), 0);
    assert_eq!(storage.len(), 1);
    assert_eq!(storage.get(0).map(|t| t.id), Some(5));
    storage.destroy();
    assert_eq!(*log.borrow(), vec![5]);
}

#[test]
fn write_unchecked_takes_the_slot_of_a_raw_value() {
    let mut storage = Storage::<u32, Global>::new(3, Target::Avx2, &heap()).unwrap();
    storage.direct_write(0, 1);
    storage.direct_write(1, 2);
    storage.write_unchecked(10);
    assert_eq!(storage.as_slice(), &[10]);
    storage.assume_init(2);
    assert_eq!(storage.as_slice(), &[10, 2]);
    storage.destroy();
}

#[test]
fn get_mut_changes_one_element() {
    let mut storage =
        Storage::<u32, Global>::from_vec(3, vec![1, 2, 3], Target::Avx2, &heap()).unwrap();
    *storage.get_mut(1).unwrap() = 20;
    assert_eq!(storage.as_slice(), &[1, 20, 3]);
    assert!(storage.get_mut(3).is_none());
    assert_eq!(storage.len(), 3);
    storage.destroy();
}

#[test]
fn the_mutable_slice_covers_the_live_elements_only() {
    let mut storage = Storage::<u32, Global>::new(4, Target::Avx2, &heap()).unwrap();
    storage.write_unchecked(1);
    storage.write_unchecked(2);
    storage.direct_write(2, 3);
    {
        let live = storage.as_mut_slice();
        assert_eq!(live.len(), 2);
        live[0] = 10;
        live[1] = 20;
    }
    assert_eq!(storage.len(), 2);
    assert_eq!(storage.as_slice(), &[10, 20]);
    storage.assume_init(3);
    assert_eq!(storage.as_slice(), &[10, 20, 3]);
    storage.destroy();
}

#[test]
fn capacity_counts_the_room_of_the_region() {
    let storage = Storage::<u32, Global>::new(3, Target::Avx2, &heap()).unwrap();
    assert_eq!(storage.allocated_len(), 3);
    assert_eq!(storage.capacity(), 8);
    storage.destroy();
    let storage = Storage::<u64, Global>::new(4, Target::Avx2, &heap()).unwrap();
    assert_eq!(storage.allocated_len(), 4);
    assert_eq!(storage.capacity(), 4);
    storage.destroy();
}

#[test]
fn the_pointers_name_the_aligned_start_of_the_buffer() {
    let mut storage = Storage::<u16, Global>::new(3, Target::Neon, &heap()).unwrap();
    let read = storage.as_ptr();
    assert_ne!(read, 0);
    assert_eq!(read % 16, 0);
    assert_eq!(storage.as_mut_ptr(), read);
    storage.destroy();
}

#[test]
fn a_storage_on_a_buffer_with_chosen_policies() {
    let alloc = heap();
    let buffer = BufferBuilder::new(4, Target::Baseline)
        .zeroed()
        .with_alignment::<64>()
        .build::<u32, Global>(&alloc)
        .unwrap();
    let mut storage = Storage::from_buffer(buffer);
    assert_eq!(storage.len(), 0);
    assert_eq!(storage.allocated_len(), 4);
    assert_eq!(storage.capacity(), 16);
    assert_eq!(storage.as_ptr() % 64, 0);
    storage.write_unchecked(1);
    assert_eq!(storage.as_slice(), &[1]);
    storage.destroy();
}

#[test]
fn from_parts_takes_the_elements_as_live() {
    let alloc = heap();
    let buffer = BufferBuilder::new(4, Target::Avx2).build::<u32, Global>(&alloc).unwrap();
    let storage = Storage::from_parts(buffer, vec![4, 5]);
    assert_eq!(storage.len(), 2);
    assert_eq!(storage.allocated_len(), 4);
    assert_eq!(storage.as_slice(), &[4, 5]);
    storage.destroy();
}

#[test]
fn an_exhausted_allocator_gives_a_memory_error() {
    let alloc = Rc::new(Exhausted);
    assert!(matches!(
        Storage::<u32, Exhausted>::new(4, Target::Avx2, &alloc).map(|s| s.len()),
        Err(TensorError::Memory(_))
    ));
    assert!(matches!(
        Storage::<u32, Exhausted>::from_vec(2, vec![1, 2], Target::Avx2, &alloc).map(|s| s.len()),
        Err(TensorError::Memory(_))
    ));
    assert!(matches!(
        Storage::<u32, Exhausted>::from_slice(&[1, 2], Target::Avx2, &alloc).map(|s| s.len()),
        Err(TensorError::Memory(_))
    ));
    assert!(matches!(
        Storage::<u32, Exhausted>::filled_with(2, 7, Target::Avx2, &alloc).map(|s| s.len()),
        Err(TensorError::Memory(_))
    ));
    assert!(matches!(
        Storage::<u32, Exhausted>::copy_from_slice(&[1, 2], Target::Avx2, &alloc).map(|s| s.len()),
        Err(TensorError::Memory(_))
    ));
}

#[test]
fn direct_mut_changes_a_live_element() {
    let mut storage =
        Storage::<u32, Global>::from_vec(3, vec![1, 2, 3], Target::Avx2, &heap()).unwrap();
    *storage.direct_mut(2) += 40;
    assert_eq!(storage.as_slice(), &[1, 2, 43]);
    assert_eq!(storage.len(), 3);
    storage.destroy();
}
