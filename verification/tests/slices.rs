use peresil::bytes::BytePoint;
use peresil::{Point, Progress, SlicePoint, Status};

const ITEMS: [u16; 5] = [10, 20, 30, 40, 50];

#[test]
fn slice_new_starts_at_zero() {
    let p = SlicePoint::new(&ITEMS);
    assert_eq!(p.offset, 0);
    assert_eq!(p.s, &ITEMS);
    let empty: [u16; 0] = [];
    let p = SlicePoint::new(&empty);
    assert_eq!(p.offset, 0);
    assert!(p.s.is_empty());
}

#[test]
fn slice_zero_is_empty_start() {
    let z: SlicePoint<u16> = SlicePoint::zero();
    assert_eq!(z.offset, 0);
    assert!(z.s.is_empty());
}

#[test]
fn slice_advance_by_moves_offset_and_keeps_the_rest() {
    let p = SlicePoint::new(&ITEMS).advance_by(2);
    assert_eq!(p.offset, 2);
    assert_eq!(p.s, &[30, 40, 50]);
    let q = p.advance_by(0);
    assert_eq!(q.offset, 2);
    assert_eq!(q.s, &[30, 40, 50]);
    let end = q.advance_by(3);
    assert_eq!(end.offset, 5);
    assert!(end.s.is_empty());
}

#[test]
fn slice_fail_does_not_move() {
    let p = SlicePoint { offset: 3, s: &ITEMS[3..] };
    let r: Progress<SlicePoint<u16>, u8, ()> = p.fail();
    assert_eq!(r.point.offset, 3);
    assert_eq!(r.point.s, &[40, 50]);
    assert_eq!(r.status, Status::Failure(()));
}

#[test]
fn slice_success_takes_exactly_len_items_even_none() {
    let p = SlicePoint::new(&ITEMS);
    let r: Progress<SlicePoint<u16>, &[u16], ()> = p.success(2);
    assert_eq!(r.point.offset, 2);
    assert_eq!(r.point.s, &[30, 40, 50]);
    assert_eq!(r.status, Status::Success(&[10u16, 20][..]));

    let none: Progress<SlicePoint<u16>, &[u16], ()> = r.point.success(0);
    assert_eq!(none.point.offset, 2);
    assert_eq!(none.point.s, &[30, 40, 50]);
    assert_eq!(none.status, Status::Success(&[][..]));

    let all: Progress<SlicePoint<u16>, &[u16], ()> = r.point.success(3);
    assert_eq!(all.point.offset, 5);
    assert!(all.point.s.is_empty());
    assert_eq!(all.status, Status::Success(&[30u16, 40, 50][..]));
}

#[test]
fn slice_success_opt() {
    let p = SlicePoint::new(&ITEMS);
    let r = p.success_opt(Some(1));
    assert_eq!(r.point.offset, 1);
    assert_eq!(r.status, Status::Success(&[10u16][..]));
    let r = p.success_opt(Some(0));
    assert_eq!(r.point.offset, 0);
    assert_eq!(r.status, Status::Success(&[][..]));
    let r = p.success_opt(None);
    assert_eq!(r.point.offset, 0);
    assert_eq!(r.point.s, &ITEMS);
    assert_eq!(r.status, Status::Failure(()));
}

#[test]
fn slice_consume_rejects_zero_and_too_much() {
    let p = SlicePoint { offset: 7, s: &ITEMS[..] };
    for len in [0usize, 6, 7, usize::MAX] {
        let r = p.consume(len);
        assert_eq!(r.status, Status::Failure(()));
        assert_eq!(r.point.offset, 7);
        assert_eq!(r.point.s, &ITEMS);
    }
    let empty = SlicePoint { offset: 7, s: &ITEMS[5..] };
    assert_eq!(empty.consume(1).status, Status::Failure(()));
    assert_eq!(empty.consume(0).status, Status::Failure(()));
}

#[test]
fn slice_consume_takes_up_to_all_that_is_left() {
    let p = SlicePoint { offset: 7, s: &ITEMS[..] };
    let r = p.consume(1);
    assert_eq!(r.point.offset, 8);
    assert_eq!(r.point.s, &[20, 30, 40, 50]);
    assert_eq!(r.status, Status::Success(&[10u16][..]));
    let r = p.consume(5);
    assert_eq!(r.point.offset, 12);
    assert!(r.point.s.is_empty());
    assert_eq!(r.status, Status::Success(&ITEMS[..]));
}

#[test]
fn slice_consume_opt() {
    let p = SlicePoint::new(&ITEMS);
    let r = p.consume_opt(Some(3));
    assert_eq!(r.point.offset, 3);
    assert_eq!(r.status, Status::Success(&[10u16, 20, 30][..]));
    for len in [None, Some(0), Some(6)] {
        let r = p.consume_opt(len);
        assert_eq!(r.point.offset, 0);
        assert_eq!(r.point.s, &ITEMS);
        assert_eq!(r.status, Status::Failure(()));
    }
}

#[test]
fn slice_tag_matches_a_leading_literal_only() {
    let input = b"hello world";
    let hello = SlicePoint::tag(b"hello");
    let p = BytePoint::new(input);
    let r = hello(p);
    assert_eq!(r.point.offset, 5);
    assert_eq!(r.point.s, b" world");
    assert_eq!(r.status, Status::Success(&b"hello"[..]));

    // Not at the start of what is left.
    let r = hello(r.point);
    assert_eq!(r.point.offset, 5);
    assert_eq!(r.point.s, b" world");
    assert_eq!(r.status, Status::Failure(()));

    // Differs in the last item only.
    let r = SlicePoint::tag(b"hellp")(p);
    assert_eq!(r.point.offset, 0);
    assert_eq!(r.status, Status::Failure(()));

    // Longer than what is left.
    let r = SlicePoint::tag(b"hello world!")(p);
    assert_eq!(r.point.offset, 0);
    assert_eq!(r.point.s, input);
    assert_eq!(r.status, Status::Failure(()));

    // All that is left.
    let r = SlicePoint::tag(b"hello world")(p);
    assert_eq!(r.point.offset, 11);
    assert!(r.point.s.is_empty());
    assert_eq!(r.status, Status::Success(&input[..]));
}

#[test]
fn slice_empty_tag_matches_without_moving() {
    let empty: [u16; 0] = [];
    let nothing = SlicePoint::tag(&empty);
    let p = SlicePoint { offset: 2, s: &ITEMS[2..] };
    let r = nothing(p);
    assert_eq!(r.point.offset, 2);
    assert_eq!(r.point.s, &[30, 40, 50]);
    assert_eq!(r.status, Status::Success(&[][..]));
    let end = SlicePoint { offset: 5, s: &ITEMS[5..] };
    assert_eq!(nothing(end).status, Status::Success(&[][..]));
}

#[test]
fn slice_tag_can_be_used_again() {
    let ab = [1u16, 2];
    let input = [1u16, 2, 1, 2, 3];
    let tag = SlicePoint::tag(&ab);
    let first = tag(SlicePoint::new(&input));
    let second = tag(first.point);
    let third = tag(second.point);
    assert_eq!(first.point.offset, 2);
    assert_eq!(second.point.offset, 4);
    assert_eq!(third.status, Status::Failure(()));
    assert_eq!(third.point.offset, 4);
}

#[test]
fn slice_points_compare_by_offset_alone() {
    let a = SlicePoint { offset: 2, s: &ITEMS[..] };
    let b = SlicePoint { offset: 2, s: &ITEMS[3..] };
    let c = SlicePoint { offset: 4, s: &ITEMS[..1] };
    assert!(a == b);
    assert!(a != c);
    assert!(a < c);
    assert!(c > b);
    assert!(a <= b && a >= b);
    assert_eq!(a.partial_cmp(&b), Some(std::cmp::Ordering::Equal));
    assert_eq!(a.partial_cmp(&c), Some(std::cmp::Ordering::Less));
    assert_eq!(c.partial_cmp(&a), Some(std::cmp::Ordering::Greater));
    assert!(c.is_past(&a));
    assert!(!a.is_past(&c));
    assert!(!a.is_past(&b));
}

#[test]
fn slice_points_are_copies() {
    let p = SlicePoint::new(&ITEMS);
    let q = p;
    let r = p.clone();
    let moved = p.consume(2).point;
    assert_eq!(q.offset, 0);
    assert_eq!(r.offset, 0);
    assert_eq!(q.s, &ITEMS);
    assert_eq!(moved.offset, 2);
}
