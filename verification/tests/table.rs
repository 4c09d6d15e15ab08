use ethel::state::buffer::DoubleBuffer;
use ethel::state::buffer::SwapBuffers;
use ethel::state::buffer::TripleBuffer;
use ethel::state::table::DualView;
use ethel::state::table::SoloView;
use ethel::state::table::SoloViewMut;

struct Def;

fn solo<'row, A>(row: &'row [A]) -> SoloView<'row, Def, A> {
    SoloView { alpha: row, _definition: std::marker::PhantomData }
}

fn solo_mut<'row, A>(row: &'row mut [A]) -> SoloViewMut<'row, Def, A> {
    SoloViewMut { alpha: row, _definition: std::marker::PhantomData }
}

#[test]
fn rows_are_walked_in_step() {
    let names = ["a", "b", "c"];
    let ages = [1u8, 2, 3, 4];
    let flags = [true, false];
    let pair: DualView<Def, &str, u8> = solo(&names).join(solo(&ages));
    let items = pair.iter();
    assert_eq!(items.len(), 3);
    assert_eq!(items[2], (&"c", &3));
    let trio = pair.join(solo(&flags));
    let items = trio.iter();
    assert_eq!(items.len(), 2);
    assert_eq!(items[1], ((&"b", &2), &false));
    let quat = trio.join(solo(&ages));
    let items = quat.iter();
    assert_eq!(items.len(), 2);
    assert_eq!(items[0], ((&"a", &1), (&true, &1)));
    assert_eq!(quat.delta(), &ages);
}

#[test]
fn rows_are_dropped_from_either_end() {
    let names = ["a", "b"];
    let ages = [1u8, 2];
    let flags = [true, false];
    let sizes = [10u64, 20];
    let quat = solo(&names).join(solo(&ages)).join(solo(&flags)).join(solo(&sizes));
    assert_eq!(quat.alpha(), &names);
    assert_eq!(quat.beta(), &ages);
    assert_eq!(quat.gamma(), &flags);
    let left = quat.pop_left();
    assert_eq!(left.alpha(), &ages);
    assert_eq!(left.beta(), &flags);
    assert_eq!(left.gamma(), &sizes);
    let right = quat.pop_right();
    assert_eq!(right.alpha(), &names);
    assert_eq!(right.gamma(), &flags);
    let pair = right.pop_left();
    assert_eq!(pair.alpha(), &ages);
    assert_eq!(pair.beta(), &flags);
    assert_eq!(right.pop_right().beta(), &ages);
    assert_eq!(pair.pop_left().alpha(), &flags);
    assert_eq!(pair.pop_right().alpha(), &ages);
    assert_eq!(pair.pop_right().iter(), &ages);
}

#[test]
fn rows_are_written_in_step() {
    let mut xs = [1u32, 2, 3];
    let mut ys = [10u32, 20];
    {
        let mut pair = solo_mut(&mut xs).join(solo_mut(&mut ys));
        let (left, right) = pair.iter_mut();
        assert_eq!(left.len(), 2);
        for (x, y) in left.iter_mut().zip(right.iter_mut()) {
            *x += *y;
            *y = 0;
        }
    }
    assert_eq!(xs, [11, 22, 3]);
    assert_eq!(ys, [0, 0]);
}

#[test]
fn mutable_rows_are_joined_and_dropped() {
    let mut xs = [1u32, 2];
    let mut ys = [3u8, 4];
    let mut zs = [true, false];
    let mut ws = ['a', 'b'];
    {
        let quat = solo_mut(&mut xs)
            .join(solo_mut(&mut ys))
            .join(solo_mut(&mut zs))
            .join(solo_mut(&mut ws));
        let mut trio = quat.pop_left();
        let ((ys, zs), ws) = trio.iter_mut();
        ys[0] = 9;
        zs[1] = true;
        ws[1] = 'z';
    }
    {
        let quat = solo_mut(&mut xs)
            .join(solo_mut(&mut ys))
            .join(solo_mut(&mut zs))
            .join(solo_mut(&mut ws));
        let mut pair = quat.pop_left().pop_right();
        pair.alpha_mut()[1] = 8;
    }
    {
        let quat = solo_mut(&mut xs)
            .join(solo_mut(&mut ys))
            .join(solo_mut(&mut zs))
            .join(solo_mut(&mut ws));
        let mut first = quat.pop_right().pop_right().pop_right();
        first.alpha_mut()[0] = 7;
    }
    {
        let mut quat = solo_mut(&mut xs)
            .join(solo_mut(&mut ys))
            .join(solo_mut(&mut zs))
            .join(solo_mut(&mut ws));
        let ((xs, _), (_, ws)) = quat.iter_mut();
        xs[1] = 6;
        ws[0] = 'y';
    }
    {
        let pair = solo_mut(&mut zs).join(solo_mut(&mut ws));
        let mut last = pair.pop_left();
        last.alpha_mut()[1] = 'x';
    }
    assert_eq!(xs, [7, 6]);
    assert_eq!(ys, [9, 8]);
    assert_eq!(zs, [true, true]);
    assert_eq!(ws, ['y', 'x']);
}

#[test]
fn mutable_rows_are_read_in_step() {
    let mut xs = [1u32, 2, 3];
    let mut ys = [3u8, 4];
    let mut zs = [true, false];
    {
        let pair = solo_mut(&mut xs).join(solo_mut(&mut ys));
        assert_eq!(pair.iter(), vec![(&1, &3), (&2, &4)]);
    }
    {
        let trio = solo_mut(&mut xs).join(solo_mut(&mut ys)).join(solo_mut(&mut zs));
        assert_eq!(trio.iter()[1], ((&2, &4), &false));
    }
    {
        let trio = solo_mut(&mut xs).join(solo_mut(&mut ys)).join(solo_mut(&mut zs));
        assert_eq!(trio.gamma(), &[true, false]);
    }
    {
        let pair = solo_mut(&mut xs).join(solo_mut(&mut ys));
        assert_eq!(pair.beta(), &[3, 4]);
    }
}

#[test]
fn a_mutable_row_is_read_and_written() {
    let mut xs = [1u32, 2];
    {
        let view = solo_mut(&mut xs);
        assert_eq!(view.alpha(), &[1, 2]);
    }
    {
        let view = solo_mut(&mut xs);
        assert_eq!(view.iter(), &[1, 2]);
    }
    {
        let mut view = solo_mut(&mut xs);
        view.alpha_mut()[0] = 5;
    }
    {
        let mut view = solo_mut(&mut xs);
        view.iter_mut()[1] = 6;
    }
    assert_eq!(xs, [5, 6]);
}

#[test]
fn double_buffers_change_places() {
    let mut buffer = DoubleBuffer::<Vec<u8>>::with_capacity(4);
    buffer.next_mut().push(1);
    assert!(buffer.current().is_empty());
    assert_eq!(buffer.next(), &vec![1]);
    buffer.swap_buffers();
    assert_eq!(SwapBuffers::front(&buffer), &vec![1]);
    assert!(SwapBuffers::back(&buffer).is_empty());
    buffer.current_mut().push(2);
    SwapBuffers::back_mut(&mut buffer).push(3);
    SwapBuffers::front_mut(&mut buffer).push(4);
    assert_eq!(buffer.current(), &vec![1, 2, 4]);
    assert_eq!(buffer.next(), &vec![3]);
    let blank = DoubleBuffer::<u32>::new();
    assert_eq!((*blank.current(), *blank.next()), (0, 0));
}

#[test]
fn triple_buffers_rotate_the_head() {
    let mut buffer = TripleBuffer::<Vec<u8>>::with_capacity(2);
    buffer.front_mut().push(0);
    buffer.back_mut().push(1);
    buffer.third_mut().push(2);
    assert_eq!(SwapBuffers::front(&buffer), &vec![0]);
    assert_eq!(SwapBuffers::back(&buffer), &vec![1]);
    assert_eq!(buffer.next_buffer(), 1);
    buffer.swap_buffers();
    assert_eq!(SwapBuffers::front(&buffer), &vec![1]);
    assert_eq!(SwapBuffers::back(&buffer), &vec![2]);
    buffer.rotate_buffers();
    assert_eq!(SwapBuffers::front(&buffer), &vec![2]);
    assert_eq!(SwapBuffers::back(&buffer), &vec![0]);
    assert_eq!(buffer.next_buffer(), 0);
    SwapBuffers::back_mut(&mut buffer).push(9);
    SwapBuffers::front_mut(&mut buffer).push(8);
    buffer.rotate_buffers();
    assert_eq!(SwapBuffers::front(&buffer), &vec![0, 9]);
    assert_eq!(buffer.front(), &vec![0, 9]);
    assert_eq!(buffer.back(), &vec![1]);
    assert_eq!(buffer.third(), &vec![2, 8]);
    let blank = TripleBuffer::<u32>::new();
    assert_eq!(*blank.third(), 0);
}
