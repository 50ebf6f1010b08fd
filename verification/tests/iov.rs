use shyper_vm::iov::VirtioIovInner;

fn iov(segs: &[(usize, usize)]) -> VirtioIovInner {
    let mut v = VirtioIovInner::default();
    for &(b, l) in segs {
        v.push_data(b, l);
    }
    v
}

fn copies(v: &shyper_vm::iov::IovWritePlan) -> Vec<(usize, usize, usize)> {
    v.copies.iter().map(|c| (c.dst, c.src, c.len)).collect()
}

#[test]
fn iov_accessors() {
    let v = iov(&[(0x1000, 16), (0x2000, 32)]);
    assert_eq!(v.num(), 2);
    assert_eq!(v.get_buf(0), 0x1000);
    assert_eq!(v.get_len(0), 16);
    assert_eq!(v.get_buf(1), 0x2000);
    assert_eq!(v.get_len(1), 32);
    assert_eq!(VirtioIovInner::default().num(), 0);
}

#[test]
fn get_ptr_finds_offset() {
    let v = iov(&[(0x1000, 16), (0x2000, 32)]);
    assert_eq!(v.get_ptr(0), Some(0x1000));
    assert_eq!(v.get_ptr(15), Some(0x100f));
    assert_eq!(v.get_ptr(16), Some(0x2000));
    assert_eq!(v.get_ptr(20), Some(0x2004));
    assert_eq!(v.get_ptr(48), None);
    assert_eq!(v.get_ptr(1000), None);
}

#[test]
fn get_ptr_skips_empty_buffers() {
    let v = iov(&[(0x1000, 0), (0x2000, 4)]);
    assert_eq!(v.get_ptr(0), Some(0x2000));
}

#[test]
fn write_through_merges_buffers() {
    let src = iov(&[(0x1000, 10), (0x2000, 20)]);
    let dst = iov(&[(0x8000, 15), (0x9000, 15)]);
    let plan = src.write_through_iov(&dst, 30);
    assert_eq!(
        copies(&plan),
        vec![(0x8000, 0x1000, 10), (0x800a, 0x2000, 5), (0x9000, 0x2005, 15)]
    );
    assert_eq!(plan.remain, 0);
}

#[test]
fn write_through_stops_when_source_ends() {
    let src = iov(&[(0x1000, 10)]);
    let dst = iov(&[(0x8000, 64)]);
    let plan = src.write_through_iov(&dst, 100);
    assert_eq!(copies(&plan), vec![(0x8000, 0x1000, 10)]);
    assert_eq!(plan.remain, 90);
}

#[test]
fn write_through_stops_at_boundary() {
    let src = iov(&[(0x1000, 10), (0x2000, 20)]);
    let dst = iov(&[(0x8000, 64)]);
    let plan = src.write_through_iov(&dst, 10);
    assert_eq!(copies(&plan), vec![(0x8000, 0x1000, 10)]);
    assert_eq!(plan.remain, 0);
}

#[test]
fn write_through_nothing_requested() {
    let src = iov(&[(0x1000, 10)]);
    let dst = iov(&[(0x8000, 64)]);
    let plan = src.write_through_iov(&dst, 0);
    assert!(plan.copies.is_empty());
    assert_eq!(plan.remain, 0);
}
