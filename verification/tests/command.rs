use ethel::mesh::Id;
use ethel::mesh::Meshadata;
use ethel::mesh::Metadata;
use ethel::render::buffer::View;
use ethel::render::command::Dispatch;
use ethel::render::command::DrawArraysIndirectCommand;
use ethel::render::command::DrawCall;
use ethel::render::command::DrawCmd;
use ethel::render::command::DrawElementsIndirectCommand;
use ethel::render::command::GpuCommandDispatch;
use ethel::render::command::GpuCommandQueue;

fn command(count: u32) -> DrawArraysIndirectCommand {
    DrawArraysIndirectCommand { count, instance_count: 1, first_vertex: 0, base_instance: 0 }
}

#[test]
fn what_does_not_fit_the_command_buffer_is_reported() {
    let mut queue = GpuCommandQueue::new(4);
    for count in 0..6 {
        queue.push(command(count));
    }
    let mut buffer = [DrawArraysIndirectCommand::default(); 4];
    assert_eq!(queue.upload(&mut buffer), Err(2));
    assert_eq!(buffer, [command(0), command(1), command(2), command(3)]);

    queue.clear();
    let mut buffer = [command(77); 4];
    assert_eq!(queue.upload(&mut buffer), Ok(()));
    assert_eq!(buffer, [command(77); 4]);
}

#[test]
fn a_queue_that_fits_is_uploaded_whole() {
    let mut queue = GpuCommandQueue::new(4);
    queue.push(command(5));
    queue.push(command(6));
    let mut buffer = [command(0); 4];
    assert_eq!(queue.upload(&mut buffer), Ok(()));
    assert_eq!(buffer, [command(5), command(6), command(0), command(0)]);
}

#[test]
fn a_second_upload_copies_nothing_more() {
    let mut queue = GpuCommandQueue::new(2);
    for count in 0..5 {
        queue.push(command(count));
    }
    let mut buffer = [command(9); 2];
    assert_eq!(queue.upload(&mut buffer), Err(3));
    assert_eq!(buffer, [command(0), command(1)]);
    let mut buffer = [command(9); 2];
    assert_eq!(queue.upload(&mut buffer), Err(3));
    assert_eq!(buffer, [command(9), command(9)]);
}

#[test]
fn the_queue_pops_what_was_pushed_last() {
    let mut queue = GpuCommandQueue::new(8);
    assert_eq!(queue.pop(), None);
    queue.push(command(1));
    queue.push(command(2));
    assert_eq!(queue.pop(), Some(command(2)));
    assert_eq!(queue.pop(), Some(command(1)));
    assert_eq!(queue.pop(), None);
}

#[test]
fn each_kind_of_command_knows_its_draw_call() {
    assert_eq!(DrawArraysIndirectCommand::call(3), DrawCall::Arrays { draw_count: 3 });
    assert_eq!(DrawElementsIndirectCommand::call(4), DrawCall::Elements { draw_count: 4 });
    let blank = DrawElementsIndirectCommand::default();
    assert_eq!((blank.count, blank.base_vertex), (0, 0));
}

#[test]
fn a_dispatch_runs_all_commands_in_the_view() {
    let commands = [command(1), command(2), command(3)];
    let view = View::new(&commands, 0, 3, 17);
    let dispatch = GpuCommandDispatch::from_view(view).dispatch();
    assert_eq!(dispatch, Dispatch { buffer: 17, call: DrawCall::Arrays { draw_count: 3 } });
}

#[test]
fn meshes_lie_back_to_back() {
    let mut meshes = Meshadata::new();
    assert_eq!(meshes.head(), 0);
    assert_eq!(meshes.add(3), Id(0));
    assert_eq!(meshes.add(36), Id(1));
    assert_eq!(meshes.add(0), Id(2));
    assert_eq!(meshes.add(8), Id(3));
    assert_eq!(*meshes.get(Id(0)), Metadata { offset: 0, length: 3 });
    assert_eq!(*meshes.get(Id(1)), Metadata { offset: 3, length: 36 });
    assert_eq!(*meshes.get(Id(2)), Metadata { offset: 39, length: 0 });
    assert_eq!(*meshes.get(Id(3)), Metadata { offset: 39, length: 8 });
    assert_eq!(meshes.head(), 47);
    assert_eq!(meshes.inner_metadata().len(), 4);
    assert_eq!(meshes.len(), 4);
    meshes.clear();
    assert_eq!(meshes.head(), 0);
    assert!(meshes.inner_metadata().is_empty());
    assert_eq!(meshes.add(5), Id(0));
    assert_eq!(Meshadata::default().head(), 0);
}

#[test]
fn the_queue_counts_what_it_holds_and_what_it_uploaded() {
    let mut queue = GpuCommandQueue::new(3);
    assert_eq!((queue.len(), queue.uploaded(), queue.buffer_len()), (0, 0, 3));
    for count in 0..5 {
        queue.push(command(count));
    }
    let mut buffer = [command(0); 3];
    assert_eq!(queue.upload(&mut buffer), Err(2));
    assert_eq!((queue.len(), queue.uploaded(), queue.buffer_len()), (5, 3, 3));
    queue.clear();
    assert_eq!((queue.len(), queue.uploaded(), queue.buffer_len()), (0, 0, 3));
}
