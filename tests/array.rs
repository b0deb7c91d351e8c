use std::cell::RefCell;
use std::rc::Rc;

use accessor::array::{ReadOnly, ReadWrite, WriteOnly};
use accessor::{Error, Identity, Mapper, Memory};

const BASE: usize = 0x1000;

/// An identity mapper over a simulated memory of `u32` words starting at
/// `BASE`, which logs its calls to `map` and `unmap`.
struct M {
    mem: Rc<RefCell<Vec<u32>>>,
    maps: Rc<RefCell<Vec<(usize, usize)>>>,
    unmaps: Rc<RefCell<Vec<(usize, usize)>>>,
}

impl M {
    fn over(mem: &Rc<RefCell<Vec<u32>>>) -> M {
        M {
            mem: Rc::clone(mem),
            maps: Rc::new(RefCell::new(Vec::new())),
            unmaps: Rc::new(RefCell::new(Vec::new())),
        }
    }
}

impl Mapper for M {
    fn map(&mut self, phys_start: usize, bytes: usize) -> usize {
        self.maps.borrow_mut().push((phys_start, bytes));
        phys_start
    }

    fn unmap(&mut self, virt_start: usize, bytes: usize) {
        self.unmaps.borrow_mut().push((virt_start, bytes));
    }
}

impl Memory<u32> for M {
    fn read_volatile(&self, virt: usize) -> u32 {
        self.mem.borrow()[(virt - BASE) / 4]
    }

    fn write_volatile(&mut self, virt: usize, v: u32) {
        self.mem.borrow_mut()[(virt - BASE) / 4] = v;
    }
}

fn memory(values: &[u32]) -> Rc<RefCell<Vec<u32>>> {
    Rc::new(RefCell::new(values.to_vec()))
}

fn base_addr(_: &Rc<RefCell<Vec<u32>>>) -> usize {
    BASE
}

#[test]
fn test_read_volatile_at() {
    let arr = memory(&[1, 2, 3, 4, 5]);
    let a = ReadOnly::<u32, _>::new(base_addr(&arr), arr.borrow().len(), M::over(&arr));

    assert_eq!(a.read_volatile_at(0), 1);
}

#[test]
fn test_write_volatile_at() {
    let arr = memory(&[1, 2, 3, 4, 5]);
    let n = arr.borrow().len();
    let mut a = WriteOnly::<u32, _>::new(base_addr(&arr), n, M::over(&arr));

    a.write_volatile_at(0, 42);
    assert_eq!(arr.borrow()[0], 42);
}

#[test]
fn test_update_volatile_at() {
    let arr = memory(&[1, 2, 3, 4, 5]);
    let n = arr.borrow().len();
    let mut a = ReadWrite::<u32, _>::new(base_addr(&arr), n, M::over(&arr));

    a.update_volatile_at(0, |v| v * 2);
    assert_eq!(arr.borrow()[0], 2);
}

#[test]
fn test_into_iter() {
    let arr = memory(&[1, 2, 3, 4, 5]);
    let n = arr.borrow().len();
    let a = ReadOnly::<u32, _>::new(base_addr(&arr), n, M::over(&arr));

    let mut iter = a.into_iter();
    assert_eq!(iter.next(), Some(1));
    assert_eq!(iter.next(), Some(2));
    assert_eq!(iter.next(), Some(3));
    assert_eq!(iter.next(), Some(4));
    assert_eq!(iter.next(), Some(5));
    assert_eq!(iter.next(), None);
}

#[test]
fn test_eq() {
    let arr = memory(&[1, 2, 3, 4, 5]);
    let n = arr.borrow().len();
    let a = ReadOnly::<u32, _>::new(base_addr(&arr), n, M::over(&arr));
    let b = ReadOnly::<u32, _>::new(base_addr(&arr), n, M::over(&arr));

    assert!(a.eq(&b));
}

#[test]
#[should_panic]
fn test_out_of_bounds() {
    let arr = memory(&[1, 2, 3, 4, 5]);
    let n = arr.borrow().len();
    let a = ReadOnly::<u32, _>::new(base_addr(&arr), n, M::over(&arr));

    let _ = a.read_volatile_at(5);
}

#[test]
#[should_panic]
fn test_empty_array() {
    let arr = memory(&[1, 2, 3, 4, 5]);
    let _ = ReadOnly::<u32, _>::new(base_addr(&arr), 0, M::over(&arr));
}

#[test]
#[should_panic]
fn test_not_aligned() {
    let arr = memory(&[1, 2, 3, 4, 5]);
    let n = arr.borrow().len();
    let _ = ReadOnly::<u32, _>::new(base_addr(&arr) + 1, n, M::over(&arr));
}

#[test]
fn test_err_empty_array() {
    let arr = memory(&[1, 2, 3, 4, 5]);
    let r = ReadOnly::<u32, _>::try_new(base_addr(&arr), 0, M::over(&arr));

    assert!(matches!(r, Err(Error::EmptyArray)));
}

#[test]
fn test_err_not_aligned() {
    let arr = memory(&[1, 2, 3, 4, 5]);
    let n = arr.borrow().len();
    let r = ReadOnly::<u32, _>::try_new(base_addr(&arr) + 1, n, M::over(&arr));

    match r {
        Err(e) => assert_eq!(
            e,
            Error::NotAligned { alignment: std::mem::align_of::<u32>(), address: base_addr(&arr) + 1 }
        ),
        Ok(_) => panic!("a misaligned address was accepted"),
    }
}

#[test]
fn identity_mapped_elements_are_the_stored_values() {
    let arr = memory(&[7, 11, 13, 17, 19, 23]);
    let a = ReadOnly::<u32, _>::new(BASE, 6, M::over(&arr));
    for i in 0..6 {
        assert_eq!(a.read_volatile_at(i), arr.borrow()[i]);
    }
    assert_eq!(a.len(), 6);
    assert_eq!(a.addr(3), BASE + 3 * 4);
}

#[test]
fn write_then_read_returns_the_written_value() {
    let arr = memory(&[1, 2, 3]);
    let mut a = ReadWrite::<u32, _>::new(BASE, 3, M::over(&arr));
    a.write_volatile_at(2, 99);
    assert_eq!(a.read_volatile_at(2), 99);
    assert_eq!(a.read_volatile_at(0), 1);
    assert_eq!(a.read_volatile_at(1), 2);
    a.write_at(1, 5);
    assert_eq!(a.read_at(1), 5);
    assert_eq!(*arr.borrow(), vec![1, 5, 99]);
}

#[test]
fn update_is_write_of_the_function_of_the_read_value() {
    let by_update = memory(&[3, 4, 5]);
    let by_write = memory(&[3, 4, 5]);
    let mut a = ReadWrite::<u32, _>::new(BASE, 3, M::over(&by_update));
    let mut b = ReadWrite::<u32, _>::new(BASE, 3, M::over(&by_write));
    a.update_at(1, |v| v * 10 + 1);
    let v = b.read_at(1);
    b.write_at(1, v * 10 + 1);
    assert_eq!(*by_update.borrow(), *by_write.borrow());
    assert_eq!(*by_update.borrow(), vec![3, 41, 5]);
}

#[test]
fn empty_array_fails_without_mapping() {
    let arr = memory(&[1, 2, 3]);
    let m = M::over(&arr);
    let maps = Rc::clone(&m.maps);
    let r = ReadWrite::<u32, _>::try_new(BASE, 0, m);
    assert!(matches!(r, Err(Error::EmptyArray)));
    assert!(maps.borrow().is_empty());
}

#[test]
fn empty_array_takes_precedence_over_misalignment() {
    let arr = memory(&[1, 2, 3]);
    let r = ReadWrite::<u32, _>::try_new(BASE + 2, 0, M::over(&arr));
    assert!(matches!(r, Err(Error::EmptyArray)));
}

#[test]
fn misaligned_array_fails_without_mapping() {
    let arr = memory(&[1, 2, 3]);
    let m = M::over(&arr);
    let maps = Rc::clone(&m.maps);
    let r = ReadWrite::<u32, _>::try_new(BASE + 2, 3, m);
    match r {
        Err(e) => assert_eq!(e, Error::NotAligned { address: BASE + 2, alignment: 4 }),
        Ok(_) => panic!("a misaligned address was accepted"),
    }
    assert!(maps.borrow().is_empty());
}

#[test]
fn aligned_array_maps_its_whole_length_once() {
    let arr = memory(&[1, 2, 3]);
    let m = M::over(&arr);
    let maps = Rc::clone(&m.maps);
    let r = ReadWrite::<u32, _>::try_new(BASE, 3, m);
    assert!(r.is_ok());
    assert_eq!(*maps.borrow(), vec![(BASE, 12)]);
}

#[test]
fn iterating_twice_yields_the_same_sequence() {
    let arr = memory(&[1, 2, 3, 4, 5]);
    let a = ReadOnly::<u32, _>::new(BASE, 5, M::over(&arr));
    for _ in 0..2 {
        let mut iter = a.into_iter();
        let mut seen = Vec::new();
        while let Some(v) = iter.next() {
            seen.push(v);
        }
        assert_eq!(seen, vec![1, 2, 3, 4, 5]);
    }
}

#[test]
fn iteration_reads_memory_afresh() {
    let arr = memory(&[1, 2, 3]);
    let a = ReadOnly::<u32, _>::new(BASE, 3, M::over(&arr));
    let mut iter = a.into_iter();
    assert_eq!(iter.next(), Some(1));
    arr.borrow_mut()[1] = 20;
    assert_eq!(iter.next(), Some(20));
}

#[test]
fn close_unmaps_once_what_was_mapped() {
    let arr = memory(&[1, 2, 3, 4]);
    let m = M::over(&arr);
    let maps = Rc::clone(&m.maps);
    let unmaps = Rc::clone(&m.unmaps);
    let a = ReadWrite::<u32, _>::new(BASE, 4, m);
    assert!(unmaps.borrow().is_empty());
    let m = a.close();
    assert_eq!(*maps.borrow(), vec![(BASE, 16)]);
    assert_eq!(*unmaps.borrow(), vec![(BASE, 16)]);
    assert_eq!(m.unmaps.borrow().len(), 1);
}

#[test]
fn equal_contents_compare_equal_and_different_ones_do_not() {
    let first = memory(&[1, 2, 3]);
    let second = memory(&[1, 2, 3]);
    let third = memory(&[1, 2, 4]);
    let a = ReadOnly::<u32, _>::new(BASE, 3, M::over(&first));
    let b = ReadOnly::<u32, _>::new(BASE, 3, M::over(&second));
    let c = ReadOnly::<u32, _>::new(BASE, 3, M::over(&third));
    assert!(a.eq(&b));
    assert!(!a.eq(&c));
    assert!(!c.eq(&a));
}

#[test]
fn equality_ignores_the_tail_of_the_longer_array() {
    let short = memory(&[1, 2]);
    let long = memory(&[1, 2, 3]);
    let a = ReadOnly::<u32, _>::new(BASE, 2, M::over(&short));
    let b = ReadOnly::<u32, _>::new(BASE, 3, M::over(&long));
    assert!(a.eq(&b));
    assert!(b.eq(&a));
}

#[test]
fn bounded_accessors_reach_their_element() {
    let arr = memory(&[1, 2, 3, 4, 5, 6]);
    let mut a = ReadWrite::<u32, _>::new(BASE, 6, M::over(&arr));
    assert_eq!(a.at(3).read_volatile(), 4);
    assert_eq!(a.at(0).read(), 1);
    a.at_mut(5).write_volatile(42);
    a.at_mut(0).update_volatile(|v| v * 2);
    a.at_mut(1).write(7);
    a.at_mut(2).update(|v| v + 100);
    assert_eq!(a.at_mut(4).read_volatile(), 5);
    assert_eq!(*arr.borrow(), vec![2, 7, 103, 4, 5, 42]);
    let m = a.close();
    assert_eq!(m.maps.borrow().len(), 1);
    assert_eq!(m.unmaps.borrow().len(), 1);
}

#[test]
fn identity_maps_each_address_to_itself() {
    let mut m = Identity;
    assert_eq!(m.map(0x1000, 16), 0x1000);
    assert_eq!(m.map(0xfff0, 4), 0xfff0);
    m.unmap(0x1000, 16);
}

#[test]
fn array_aliases_name_the_read_write_accessor() {
    let arr = memory(&[8, 9]);
    let mut a: accessor::Array<u32, M> = accessor::array::Array::<u32, M>::new(BASE, 2, M::over(&arr));
    a.write_volatile_at(1, 10);
    assert_eq!(a.read_volatile_at(1), 10);
}
