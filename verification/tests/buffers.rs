use nanooctopus::borrowed_buffer::BorrowedBuffer;
use nanooctopus::detachable_buffer::DetachableBuffer;
use nanooctopus::head_arena::HeadArena;
use nanooctopus::head_arena_buffer::{HeadArenaBuffer, TempBuffer, Uninitialized};

// ---- BorrowedBuffer ----

#[test]
fn test_basic_push() {
    let mut memory: Vec<u8> = vec![0u8; 5];
    let mut allocator = HeadArena::new(&mut memory);
    let mut borrowed_buffer = BorrowedBuffer::new(&mut allocator);

    assert_eq!(borrowed_buffer.len(), 0);
    assert_eq!(borrowed_buffer.capacity(), 5);
    assert_eq!(borrowed_buffer.remaining_capacity(), 5);

    borrowed_buffer.push(42).unwrap();
    assert_eq!(borrowed_buffer.len(), 1);
    assert_eq!(borrowed_buffer.as_slice(), &[42]);
    assert_eq!(borrowed_buffer.remaining_capacity(), 4);
}

#[test]
fn test_push_until_full() {
    let mut memory: Vec<u8> = vec![0u8; 3];
    let mut allocator = HeadArena::new(&mut memory);
    let mut borrowed_buffer = BorrowedBuffer::new(&mut allocator);

    borrowed_buffer.push(1).unwrap();
    borrowed_buffer.push(2).unwrap();
    borrowed_buffer.push(3).unwrap();

    assert_eq!(borrowed_buffer.as_slice(), &[1, 2, 3]);
    assert_eq!(borrowed_buffer.remaining_capacity(), 0);
    assert!(borrowed_buffer.push(4).is_err());
}

#[test]
fn test_clear() {
    let mut memory: Vec<u8> = vec![0u8; 5];
    let mut allocator = HeadArena::new(&mut memory);
    let mut borrowed_buffer = BorrowedBuffer::new(&mut allocator);

    borrowed_buffer.append_from_slice(&[1, 2, 3]).unwrap();
    assert_eq!(borrowed_buffer.len(), 3);

    borrowed_buffer.clear();
    assert_eq!(borrowed_buffer.len(), 0);
    assert_eq!(borrowed_buffer.remaining_capacity(), 5);
    assert_eq!(borrowed_buffer.as_slice(), &[] as &[u8]);
}

#[test]
fn borrowed_buffer_test_as_mut_slice() {
    let mut memory: Vec<u8> = vec![0u8; 5];
    let mut allocator = HeadArena::new(&mut memory);
    let mut borrowed_buffer = BorrowedBuffer::new(&mut allocator);

    borrowed_buffer.append_from_slice(&[1, 2, 3]).unwrap();

    let mut_slice = borrowed_buffer.as_mut_slice();
    mut_slice[1] = 99;

    assert_eq!(borrowed_buffer.as_slice(), &[1, 99, 3]);
}

#[test]
fn borrowed_buffer_test_empty_buffer() {
    let mut memory: Vec<u8> = vec![];
    let mut allocator = HeadArena::new(&mut memory);
    let mut borrowed_buffer = BorrowedBuffer::new(&mut allocator);

    assert_eq!(borrowed_buffer.len(), 0);
    assert_eq!(borrowed_buffer.capacity(), 0);
    assert_eq!(borrowed_buffer.remaining_capacity(), 0);
    assert!(borrowed_buffer.push(1).is_err());
    assert!(borrowed_buffer.append_from_slice(&[1]).is_err());
    assert_eq!(borrowed_buffer.as_slice(), &[] as &[u8]);
}

#[test]
fn test_single_byte_buffer() {
    let mut memory: Vec<u8> = vec![0u8; 1];
    let mut allocator = HeadArena::new(&mut memory);
    let mut borrowed_buffer = BorrowedBuffer::new(&mut allocator);

    assert_eq!(borrowed_buffer.capacity(), 1);
    assert_eq!(borrowed_buffer.remaining_capacity(), 1);

    borrowed_buffer.push(42).unwrap();
    assert_eq!(borrowed_buffer.as_slice(), &[42]);
    assert_eq!(borrowed_buffer.remaining_capacity(), 0);

    assert!(borrowed_buffer.push(1).is_err());
    assert!(borrowed_buffer.append_from_slice(&[1]).is_err());
}

#[test]
fn test_clear_and_reuse() {
    let mut memory: Vec<u8> = vec![0u8; 5];
    let mut allocator = HeadArena::new(&mut memory);
    let mut borrowed_buffer = BorrowedBuffer::new(&mut allocator);

    borrowed_buffer.append_from_slice(&[1, 2, 3]).unwrap();
    assert_eq!(borrowed_buffer.len(), 3);

    borrowed_buffer.clear();
    borrowed_buffer.append_from_slice(&[4, 5, 6, 7, 8]).unwrap();
    assert_eq!(borrowed_buffer.as_slice(), &[4, 5, 6, 7, 8]);
    assert_eq!(borrowed_buffer.remaining_capacity(), 0);
}

#[test]
fn test_extend_at_exact_capacity() {
    let mut memory: Vec<u8> = vec![0u8; 3];
    let mut allocator = HeadArena::new(&mut memory);
    let mut borrowed_buffer = BorrowedBuffer::new(&mut allocator);

    assert!(borrowed_buffer.append_from_slice(&[1, 2, 3]).is_ok());
    assert_eq!(borrowed_buffer.len(), 3);
    assert_eq!(borrowed_buffer.remaining_capacity(), 0);

    assert!(borrowed_buffer.append_from_slice(&[]).is_ok());
    assert_eq!(borrowed_buffer.len(), 3);
}

#[test]
fn test_take_used() {
    let mut memory: Vec<u8> = vec![0u8; 5];
    let mut allocator = HeadArena::new(&mut memory);
    let mut borrowed_buffer = BorrowedBuffer::new(&mut allocator);

    borrowed_buffer.append_from_slice(&[10, 20, 30]).unwrap();
    let mut used = borrowed_buffer.take_used();

    assert_eq!(used, &[10, 20, 30]);
    used[0] = 255;
    assert_eq!(used, &[255, 20, 30]);
    // The arena keeps the space behind the used part.
    assert_eq!(allocator.len(), 2);
}

#[test]
fn test_extend_empty_slice() {
    let mut memory: Vec<u8> = vec![0u8; 5];
    let mut allocator = HeadArena::new(&mut memory);
    let mut borrowed_buffer = BorrowedBuffer::new(&mut allocator);

    borrowed_buffer.append_from_slice(&[]).unwrap();
    assert_eq!(borrowed_buffer.len(), 0);
    assert_eq!(borrowed_buffer.as_slice(), &[] as &[u8]);
}

#[test]
fn test_capacity_overflow() {
    let mut memory: Vec<u8> = vec![0u8; 2];
    let mut allocator = HeadArena::new(&mut memory);
    let mut borrowed_buffer = BorrowedBuffer::new(&mut allocator);

    assert!(borrowed_buffer.append_from_slice(&[1, 2, 3]).is_err());
    assert_eq!(borrowed_buffer.len(), 0);

    borrowed_buffer.append_from_slice(&[1, 2]).unwrap();
    assert!(borrowed_buffer.push(3).is_err());
    assert_eq!(borrowed_buffer.as_slice(), &[1, 2]);
}

#[test]
fn test_multiple_extension() {
    let mut memory: Vec<u8> = vec![0u8; 10];
    let mut allocator = HeadArena::new(&mut memory);
    let mut borrowed_buffer = BorrowedBuffer::new(&mut allocator);

    borrowed_buffer.append_from_slice(&[1, 2, 3]).unwrap();
    assert_eq!(borrowed_buffer.as_slice(), &[1, 2, 3]);

    borrowed_buffer.append_from_slice(&[4, 5]).unwrap();
    assert_eq!(borrowed_buffer.as_slice(), &[1, 2, 3, 4, 5]);

    borrowed_buffer.append_from_slice(&[6, 7, 8, 9, 10]).unwrap();
    assert_eq!(borrowed_buffer.as_slice(), &[1, 2, 3, 4, 5, 6, 7, 8, 9, 10]);

    assert!(borrowed_buffer.append_from_slice(&[11]).is_err());
}

#[test]
fn test_append_from_slice() {
    let mut memory: Vec<u8> = vec![0u8; 5];
    let mut allocator = HeadArena::new(&mut memory);
    let mut borrowed_buffer = BorrowedBuffer::new(&mut allocator);

    let filled = borrowed_buffer.try_append_from_slice(&[1, 2, 3, 4, 5, 6, 7]);
    assert_eq!(filled, 5);
    assert_eq!(borrowed_buffer.as_slice(), &[1, 2, 3, 4, 5]);
    assert_eq!(borrowed_buffer.remaining_capacity(), 0);

    let filled = borrowed_buffer.try_append_from_slice(&[8, 9]);
    assert_eq!(filled, 0);
    assert_eq!(borrowed_buffer.as_slice(), &[1, 2, 3, 4, 5]);
}

#[test]
fn test_append_from_slice_partial() {
    let mut memory: Vec<u8> = vec![0u8; 10];
    let mut allocator = HeadArena::new(&mut memory);
    let mut borrowed_buffer = BorrowedBuffer::new(&mut allocator);

    borrowed_buffer.append_from_slice(&[1, 2, 3]).unwrap();
    assert_eq!(borrowed_buffer.remaining_capacity(), 7);

    let filled = borrowed_buffer.try_append_from_slice(&[4, 5]);
    assert_eq!(filled, 2);
    assert_eq!(borrowed_buffer.as_slice(), &[1, 2, 3, 4, 5]);
    assert_eq!(borrowed_buffer.remaining_capacity(), 5);

    let filled = borrowed_buffer.try_append_from_slice(&[6, 7, 8, 9, 10]);
    assert_eq!(filled, 5);
    assert_eq!(borrowed_buffer.as_slice(), &[1, 2, 3, 4, 5, 6, 7, 8, 9, 10]);
    assert_eq!(borrowed_buffer.remaining_capacity(), 0);
}

#[test]
fn test_fill_remaining_empty_slice() {
    let mut memory: Vec<u8> = vec![0u8; 5];
    let mut allocator = HeadArena::new(&mut memory);
    let mut borrowed_buffer = BorrowedBuffer::new(&mut allocator);

    let filled = borrowed_buffer.try_append_from_slice(&[]);
    assert_eq!(filled, 0);
    assert_eq!(borrowed_buffer.len(), 0);
}

#[test]
fn test_as_slice_lifetime() {
    let mut memory: Vec<u8> = vec![1, 2, 3, 4, 5];
    let mut allocator = HeadArena::new(&mut memory);
    let mut borrowed_buffer = BorrowedBuffer::new(&mut allocator);
    borrowed_buffer.append_from_slice(&[1, 2, 3]).unwrap();

    let slice1 = borrowed_buffer.as_slice();
    let slice2 = borrowed_buffer.as_slice();

    assert_eq!(slice1, slice2);
    assert_eq!(slice1, &[1, 2, 3]);
}

// ---- DetachableBuffer ----

#[test]
fn test_new_buffer() {
    let mut data = [1, 2, 3, 4, 5];
    let buffer = DetachableBuffer::new(&mut data);
    assert_eq!(buffer.len(), 5);
    assert!(!buffer.is_empty());
}

#[test]
fn detachable_buffer_test_from_slice() {
    let mut data = [1, 2, 3, 4, 5];
    let buffer = DetachableBuffer::from(&mut data[..]);
    assert_eq!(buffer.len(), 5);
    assert_eq!(buffer.as_slice(), &[1, 2, 3, 4, 5]);
}

#[test]
fn detachable_buffer_test_from_array() {
    let mut data = [1, 2, 3, 4, 5];
    let buffer = DetachableBuffer::from(&mut data);
    assert_eq!(buffer.len(), 5);
}

#[test]
fn detachable_buffer_test_empty_buffer() {
    let mut data = [];
    let buffer = DetachableBuffer::new(&mut data);
    assert_eq!(buffer.len(), 0);
    assert!(buffer.is_empty());
}

#[test]
fn detachable_buffer_test_as_slice() {
    let mut data = [1, 2, 3, 4, 5];
    let buffer = DetachableBuffer::new(&mut data);
    assert_eq!(buffer.as_slice(), &[1, 2, 3, 4, 5]);
}

#[test]
fn detachable_buffer_test_as_mut_slice() {
    let mut data = [1, 2, 3, 4, 5];
    let mut buffer = DetachableBuffer::new(&mut data);
    let slice = buffer.as_mut_slice();
    slice[0] = 10;
    assert_eq!(buffer.as_slice(), &[10, 2, 3, 4, 5]);
}

#[test]
fn test_detach_partial() {
    let mut data = [1, 2, 3, 4, 5];
    let mut buffer = DetachableBuffer::new(&mut data);

    let detached = buffer.detach(2);
    assert_eq!(detached, &[1, 2]);
    assert_eq!(buffer.len(), 3);
    assert_eq!(buffer.as_slice(), &[3, 4, 5]);
}

#[test]
fn test_detach_all() {
    let mut data = [1, 2, 3];
    let mut buffer = DetachableBuffer::new(&mut data);

    let detached = buffer.detach(3);
    assert_eq!(detached, &[1, 2, 3]);
    assert_eq!(buffer.len(), 0);
    assert!(buffer.is_empty());
}

#[test]
fn test_multiple_detaches() {
    let mut data = [1, 2, 3, 4, 5, 6];
    let mut buffer = DetachableBuffer::new(&mut data);

    let first = buffer.detach(2);
    assert_eq!(first, &[1, 2]);
    assert_eq!(buffer.len(), 4);

    let second = buffer.detach(2);
    assert_eq!(second, &[3, 4]);
    assert_eq!(buffer.len(), 2);
    assert_eq!(buffer.as_slice(), &[5, 6]);
}

#[test]
fn test_detach_zero() {
    let mut data = [1, 2, 3];
    let mut buffer = DetachableBuffer::new(&mut data);

    let detached = buffer.detach(0);
    assert_eq!(detached.len(), 0);
    assert_eq!(buffer.len(), 3);
    assert_eq!(buffer.as_slice(), &[1, 2, 3]);
}

#[test]
fn detachable_buffer_test_usage_in_a_loop() {
    let mut data = [1, 2, 3, 4, 5, 6, 7, 8, 9, 10];
    let mut buffer = DetachableBuffer::new(&mut data);

    let mut detached_parts = Vec::new();

    while !buffer.is_empty() {
        let to_detach = if buffer.len() >= 3 { 3 } else { buffer.len() };
        let detached = buffer.detach(to_detach);
        detached_parts.push(detached);
    }

    for detached in detached_parts {
        println!("Detached: {:?}", detached);
    }
}

#[test]
fn detachable_buffer_test_no_borrowing_glue() {
    let mut data = [1, 2, 3, 4, 5, 6, 7, 8, 9, 10];
    let mut buffer = DetachableBuffer::new(&mut data);

    let mut detached_parts = Vec::new();

    while !buffer.is_empty() {
        let to_detach = if buffer.len() >= 3 { 3 } else { buffer.len() };
        buffer.as_mut_slice()[0] += 1;
        let detached = buffer.detach(to_detach);
        if !buffer.is_empty() {
            buffer.as_mut_slice()[0] += 1;
        }
        detached_parts.push(detached);
    }

    for detached in detached_parts {
        detached[0] -= 1;
        println!("Detached: {:?}", detached);
    }
}

#[test]
fn detachable_buffer_test_take_remaining() {
    let mut data = [1, 2, 3, 4, 5];
    let buffer = DetachableBuffer::new(&mut data);
    let remaining = buffer.take_remaining();
    assert_eq!(remaining, &[1, 2, 3, 4, 5]);
}

#[test]
fn detached_parts_write_into_the_memory() {
    let mut data: Vec<u8> = (1..=10).collect();
    {
        let mut buffer = DetachableBuffer::new(&mut data);
        let head = buffer.detach(4);
        head[0] = 100;
        buffer.as_mut_slice()[0] = 50;
        let rest = buffer.take_remaining();
        rest[5] = 60;
    }
    assert_eq!(data, vec![100, 2, 3, 4, 50, 6, 7, 8, 9, 60]);
}

// ---- HeadArena ----

#[test]
fn head_arena_test_init_from_initialized() {
    let mut memory: Vec<u8> = vec![1, 2, 3, 4, 5];
    let head_arena = HeadArena::new(&mut memory);
    assert_eq!(head_arena.len(), 5);
    assert!(!head_arena.is_empty());
}

#[test]
fn head_arena_test_init_from_uninitialized() {
    let mut memory: Vec<u8> = vec![1, 2, 3, 4, 5];
    let head_arena = HeadArena::from_uninitialized(&mut memory);
    assert_eq!(head_arena.len(), 5);
    assert!(!head_arena.is_empty());
}

#[test]
fn head_arena_test_from_slice() {
    let mut data = [1u8, 2, 3, 4, 5];
    let head_arena = HeadArena::new(&mut data[..]);
    assert_eq!(head_arena.len(), 5);
    assert_eq!(head_arena.take_remaining_mut(), &[1, 2, 3, 4, 5]);
}

#[test]
fn head_arena_test_from_uninitialized_slice() {
    let mut data: [u8; 5] = [1, 2, 3, 4, 5];
    let head_arena = HeadArena::from_uninitialized(&mut data);
    assert_eq!(head_arena.len(), 5);
    assert!(!head_arena.is_empty());
}

#[test]
fn head_arena_test_from_array() {
    let mut data = [1u8, 2, 3, 4, 5];
    let head_arena = HeadArena::from(&mut data);
    assert_eq!(head_arena.len(), 5);
}

#[test]
fn test_from_array_for_temporary_buffer() {
    let mut data = [1u8, 2, 3, 4, 5];
    let mut head_arena = HeadArena::from(&mut data);
    assert_eq!(head_arena.len(), 5);
    assert_eq!(head_arena.temporary().len(), 5);
}

#[test]
fn head_arena_test_empty_buffer() {
    let mut memory: Vec<u8> = vec![];
    let head_arena = HeadArena::new(&mut memory);
    assert_eq!(head_arena.len(), 0);
    assert!(head_arena.is_empty());
}

#[test]
fn test_empty_buffer_for_temporary_buffer() {
    let mut memory: Vec<u8> = vec![];
    let mut head_arena = HeadArena::new(&mut memory);
    assert_eq!(head_arena.len(), 0);
    assert!(head_arena.is_empty());
    let temp_buffer = head_arena.temporary();
    assert_eq!(temp_buffer.len(), 0);
    assert!(temp_buffer.is_empty());
}

#[test]
fn test_temp_buffer_as_slice() {
    let mut memory: Vec<u8> = vec![1, 2, 3, 4, 5];
    let mut head_arena = HeadArena::new(&mut memory);
    let mut temp_buffer = head_arena.temporary();
    assert_eq!(temp_buffer.as_slice_mut(), &[1, 2, 3, 4, 5]);
}

#[test]
fn test_temp_buffer_as_slice_unchecked() {
    let mut memory: Vec<u8> = vec![1, 2, 3, 4, 5];
    let mut head_arena = HeadArena::new(&mut memory);
    let temp_buffer = head_arena.temporary();
    assert_eq!(temp_buffer.as_slice(), &[1, 2, 3, 4, 5]);
}

#[test]
fn test_temp_buffer_as_mut_slice() {
    let mut memory: Vec<u8> = vec![1, 2, 3, 4, 5];
    let mut head_arena = HeadArena::new(&mut memory);
    let mut temp_buffer = head_arena.temporary();
    let slice = temp_buffer.as_slice_mut();
    slice[0] = 10;
    assert_eq!(temp_buffer.as_slice(), &[10, 2, 3, 4, 5]);
}

#[test]
fn test_temp_buffer_as_mut_slice_unchecked() {
    let mut memory: Vec<u8> = vec![1, 2, 3, 4, 5];
    let mut head_arena = HeadArena::new(&mut memory);
    let mut temp_buffer = head_arena.temporary();
    let slice = temp_buffer.as_slice_mut();
    slice[0] = 10;
    assert_eq!(temp_buffer.as_slice(), &[10, 2, 3, 4, 5]);
}

#[test]
fn head_arena_test_take_front_partial() {
    let mut memory: Vec<u8> = vec![1, 2, 3, 4, 5];
    let mut head_arena = HeadArena::new(&mut memory);

    let detached = head_arena.take_front_mut(2);
    assert_eq!(detached, &[1, 2]);
    assert_eq!(head_arena.len(), 3);
    assert_eq!(head_arena.take_remaining_mut(), &[3, 4, 5]);
}

#[test]
fn head_arena_test_take_front_all() {
    let mut memory: Vec<u8> = vec![1, 2, 3];
    let mut head_arena = HeadArena::new(&mut memory);

    let detached = head_arena.take_front_mut(3);
    assert_eq!(detached, &[1, 2, 3]);
    assert_eq!(head_arena.len(), 0);
    assert!(head_arena.is_empty());
}

#[test]
fn head_arena_test_multiple_take_fronts() {
    let mut memory: Vec<u8> = vec![1, 2, 3, 4, 5, 6];
    let mut head_arena = HeadArena::new(&mut memory);
    let first = head_arena.take_front_mut(2);
    assert_eq!(first, &[1, 2]);
    assert_eq!(head_arena.len(), 4);

    let second = head_arena.take_front_mut(2);
    assert_eq!(second, &[3, 4]);
    assert_eq!(head_arena.len(), 2);
    assert_eq!(head_arena.take_remaining_mut(), &[5, 6]);
}

#[test]
fn head_arena_test_take_front_zero() {
    let mut memory: Vec<u8> = vec![1, 2, 3];
    let mut head_arena = HeadArena::new(&mut memory);

    let detached = head_arena.take_front_mut(0);
    assert_eq!(detached.len(), 0);
    assert_eq!(head_arena.len(), 3);
    assert_eq!(head_arena.take_remaining_mut(), &[1, 2, 3]);
}

#[test]
fn head_arena_test_usage_in_a_loop() {
    const PART_SIZE: usize = 3;
    const EXPECTED_PARTS: [u8; 10] = [1, 2, 3, 4, 5, 6, 7, 8, 9, 10];

    let mut memory = EXPECTED_PARTS;
    let mut head_arena = HeadArena::new(&mut memory);

    let mut detached_parts = Vec::new();

    while !head_arena.is_empty() {
        let to_detach = core::cmp::min(head_arena.len(), PART_SIZE);
        let detached = head_arena.take_front_mut(to_detach);
        detached_parts.push(detached);
    }

    let mut expected_it = EXPECTED_PARTS.iter();
    for detached in detached_parts {
        detached.iter().for_each(|&byte| {
            assert_eq!(byte, *expected_it.next().unwrap());
        });
    }
}

#[test]
fn head_arena_test_no_borrowing_glue() {
    const PART_SIZE: usize = 3;
    const EXPECTED_PARTS: [u8; 10] = [1, 2, 3, 4, 5, 6, 7, 8, 9, 10];

    let mut memory = EXPECTED_PARTS;
    let mut head_arena = HeadArena::new(&mut memory);

    let mut detached_parts = Vec::new();

    while !head_arena.is_empty() {
        let to_detach = core::cmp::min(head_arena.len(), PART_SIZE);
        let detached = head_arena.take_front_mut(to_detach);
        detached_parts.push(detached);
    }

    let mut expected_it = EXPECTED_PARTS.iter();
    for detached in detached_parts {
        detached.iter().for_each(|&byte| {
            assert_eq!(byte, *expected_it.next().unwrap());
        });
    }
}

#[test]
fn test_no_borrowing_glue_with_temp_buffer_detach() {
    const PART_SIZE: usize = 3;
    const EXPECTED_PARTS: [u8; 10] = [1, 2, 3, 4, 5, 6, 7, 8, 9, 10];

    let mut memory = EXPECTED_PARTS;
    let mut head_arena = HeadArena::new(&mut memory);

    let mut detached_parts = Vec::new();

    while !head_arena.is_empty() {
        let temp_buffer = head_arena.temporary();
        let to_detach = core::cmp::min(temp_buffer.len(), PART_SIZE);
        let detached = temp_buffer.accuire_front_mut(to_detach);
        detached_parts.push(detached);
    }

    let mut expected_it = EXPECTED_PARTS.iter();
    for detached in detached_parts {
        detached.iter().for_each(|&byte| {
            assert_eq!(byte, *expected_it.next().unwrap());
        });
    }
}

#[test]
fn head_arena_test_take_remaining() {
    let mut memory: Vec<u8> = vec![1, 2, 3, 4, 5];
    let head_arena = HeadArena::new(&mut memory);
    let remaining = head_arena.take_remaining_mut();
    assert_eq!(remaining, &[1, 2, 3, 4, 5]);
}

#[test]
fn head_arena_subsequent_take_remaining() {
    let mut memory: Vec<u8> = vec![1, 2, 3, 4, 5];
    let mut head_arena = HeadArena::new(&mut memory);
    let _ = head_arena.take_front_mut(2);
    let remaining = head_arena.take_remaining_mut();
    assert_eq!(remaining, &[3, 4, 5]);
}

#[test]
fn two_takes_and_the_rest_partition_the_arena() {
    let data: Vec<u8> = (0..9).collect();
    let mut memory = data.clone();
    let mut head_arena = HeadArena::new(&mut memory);
    let mut joined = head_arena.take_front_mut(3).to_vec();
    joined.extend_from_slice(head_arena.take_front_mut(4));
    joined.extend_from_slice(head_arena.take_remaining_mut());
    assert_eq!(joined, data);
}

// ---- HeadArenaBuffer ----

#[test]
fn head_arena_buffer_test_init_from_initialized() {
    let mut memory: Vec<u8> = vec![1, 2, 3, 4, 5];
    let head_arena = HeadArenaBuffer::new(&mut memory);
    assert_eq!(head_arena.len(), 5);
    assert!(!head_arena.is_empty());
}

#[test]
fn head_arena_buffer_test_init_from_uninitialized() {
    let mut memory: Vec<u8> = vec![1, 2, 3, 4, 5];
    let head_arena = HeadArenaBuffer::from_uninitialized(&mut memory);
    assert_eq!(head_arena.len(), 5);
    assert!(!head_arena.is_empty());
}

#[test]
fn head_arena_buffer_test_from_slice() {
    let mut data = [1u8, 2, 3, 4, 5];
    let head_arena = HeadArenaBuffer::new(&mut data[..]);
    assert_eq!(head_arena.len(), 5);
    assert_eq!(head_arena.as_slice(), &[1, 2, 3, 4, 5]);
}

#[test]
fn head_arena_buffer_test_from_uninitialized_slice() {
    let mut data: [u8; 5] = [1, 2, 3, 4, 5];
    let head_arena = HeadArenaBuffer::from_uninitialized(&mut data);
    assert_eq!(head_arena.len(), 5);
    assert!(!head_arena.is_empty());
}

#[test]
fn head_arena_buffer_test_from_array() {
    let mut data = [1u8, 2, 3, 4, 5];
    let head_arena = HeadArenaBuffer::from(&mut data);
    assert_eq!(head_arena.len(), 5);
}

#[test]
fn head_arena_buffer_test_empty_buffer() {
    let mut memory: Vec<u8> = vec![];
    let head_arena = HeadArenaBuffer::new(&mut memory);
    assert_eq!(head_arena.len(), 0);
    assert!(head_arena.is_empty());
}

#[test]
fn head_arena_buffer_test_as_slice() {
    let mut memory: Vec<u8> = vec![1, 2, 3, 4, 5];
    let head_arena = HeadArenaBuffer::new(&mut memory);
    assert_eq!(head_arena.as_slice(), &[1, 2, 3, 4, 5]);
}

#[test]
fn head_arena_buffer_test_as_mut_slice() {
    let mut memory: Vec<u8> = vec![1, 2, 3, 4, 5];
    let mut head_arena = HeadArenaBuffer::new(&mut memory);
    let slice = head_arena.borrow_mut_slice();
    slice[0] = 10;
    assert_eq!(head_arena.as_slice(), &[10, 2, 3, 4, 5]);
}

#[test]
fn head_arena_buffer_test_take_front_partial() {
    let mut memory: Vec<u8> = vec![1, 2, 3, 4, 5];
    let mut head_arena = HeadArenaBuffer::new(&mut memory);

    let detached = head_arena.take_front_mut(2);
    assert_eq!(detached, &[1, 2]);
    assert_eq!(head_arena.len(), 3);
    assert_eq!(head_arena.as_slice(), &[3, 4, 5]);
}

#[test]
fn head_arena_buffer_test_take_front_all() {
    let mut memory: Vec<u8> = vec![1, 2, 3];
    let mut head_arena = HeadArenaBuffer::new(&mut memory);

    let detached = head_arena.take_front_mut(3);
    assert_eq!(detached, &[1, 2, 3]);
    assert_eq!(head_arena.len(), 0);
    assert!(head_arena.is_empty());
}

#[test]
fn head_arena_buffer_test_multiple_take_fronts() {
    let mut memory: Vec<u8> = vec![1, 2, 3, 4, 5, 6];
    let mut head_arena = HeadArenaBuffer::new(&mut memory);
    let first = head_arena.take_front_mut(2);
    assert_eq!(first, &[1, 2]);
    assert_eq!(head_arena.len(), 4);

    let second = head_arena.take_front_mut(2);
    assert_eq!(second, &[3, 4]);
    assert_eq!(head_arena.len(), 2);
    assert_eq!(head_arena.as_slice(), &[5, 6]);
}

#[test]
fn head_arena_buffer_test_take_front_zero() {
    let mut memory: Vec<u8> = vec![1, 2, 3];
    let mut head_arena = HeadArenaBuffer::new(&mut memory);

    let detached = head_arena.take_front_mut(0);
    assert_eq!(detached.len(), 0);
    assert_eq!(head_arena.len(), 3);
    assert_eq!(head_arena.as_slice(), &[1, 2, 3]);
}

#[test]
fn head_arena_buffer_test_usage_in_a_loop() {
    const PART_SIZE: usize = 3;
    let mut memory: Vec<u8> = vec![1, 2, 3, 4, 5, 6, 7, 8, 9, 10];
    let mut head_arena = HeadArenaBuffer::new(&mut memory);

    let mut detached_parts = Vec::new();

    while !head_arena.is_empty() {
        let to_detach = core::cmp::min(head_arena.len(), PART_SIZE);
        let detached = head_arena.take_front_mut(to_detach);
        detached_parts.push(detached);
    }

    for detached in detached_parts {
        println!("Detached: {:?}", detached);
    }
}

#[test]
fn head_arena_buffer_test_no_borrowing_glue() {
    const PART_SIZE: usize = 3;

    let mut memory: Vec<u8> = vec![1, 2, 3, 4, 5, 6, 7, 8, 9, 10];
    let mut head_arena = HeadArenaBuffer::new(&mut memory);

    let mut detached_parts = Vec::new();

    while !head_arena.is_empty() {
        let to_detach = core::cmp::min(head_arena.len(), PART_SIZE);
        head_arena.borrow_mut_slice()[0] += 1;
        let detached = head_arena.take_front_mut(to_detach);
        if !head_arena.is_empty() {
            head_arena.borrow_mut_slice()[0] += 1;
        }
        detached_parts.push(detached);
    }

    for mut detached in detached_parts {
        detached[0] -= 1;
        println!("Detached: {:?}", detached);
    }
}

#[test]
fn head_arena_buffer_test_take_remaining() {
    let mut memory: Vec<u8> = vec![1, 2, 3, 4, 5];
    let head_arena = HeadArenaBuffer::new(&mut memory);
    let remaining = head_arena.take_remaining_mut();
    assert_eq!(remaining, &[1, 2, 3, 4, 5]);
}

#[test]
fn head_arena_buffer_subsequent_take_remaining() {
    let mut memory: Vec<u8> = vec![1, 2, 3, 4, 5];
    let mut head_arena = HeadArenaBuffer::new(&mut memory);
    let _ = head_arena.take_front_mut(2);
    let remaining = head_arena.take_remaining_mut();
    assert_eq!(remaining, &[3, 4, 5]);
}

#[test]
fn subarena_takes_the_front() {
    let mut memory: Vec<u8> = vec![1, 2, 3, 4, 5, 6];
    let mut head_arena = HeadArenaBuffer::new(&mut memory);
    let _ = head_arena.take_front_mut(2);
    let sub = head_arena.subarena(3);
    assert_eq!(sub.as_slice(), &[3, 4, 5]);
    assert_eq!(head_arena.as_slice(), &[6]);
}

#[test]
fn temp_buffer_initialize_and_acquire() {
    let mut memory: Vec<u8> = vec![7, 7, 7, 7, 7];
    let mut head_arena = HeadArenaBuffer::new(&mut memory);
    let temp = TempBuffer::<'_, '_, Uninitialized>::new_uninitialized(&mut head_arena);
    let initialized = temp.initialize_with_zero(3);
    assert_eq!(initialized.as_slice(), &[0, 0, 0]);
    let used = initialized.accuire_mut(2);
    assert_eq!(used, &[0, 0]);
    assert_eq!(head_arena.as_slice(), &[0, 7, 7]);
}

#[test]
fn temp_buffer_initialize_with_zero_all() {
    let mut memory: Vec<u8> = vec![7, 7, 7];
    let mut head_arena = HeadArenaBuffer::new(&mut memory);
    let temp = TempBuffer::<'_, '_, Uninitialized>::new_uninitialized(&mut head_arena);
    let initialized = temp.initialize_with_zero_all();
    assert_eq!(initialized.as_slice(), &[0, 0, 0]);
}

#[test]
fn temp_buffer_initialize_with_predicate() {
    let mut memory: Vec<u8> = vec![0; 6];
    let mut head_arena = HeadArenaBuffer::new(&mut memory);
    let temp = TempBuffer::<'_, '_, Uninitialized>::new_uninitialized(&mut head_arena);
    let initialized = temp.initialize(|buf: &mut [u8]| {
        buf[0] = 1;
        buf[1] = 2;
        2
    });
    assert_eq!(initialized.as_slice(), &[1, 2]);
}

#[test]
fn temp_buffer_acquire_with_init() {
    let mut memory: Vec<u8> = vec![0; 6];
    let mut head_arena = HeadArenaBuffer::new(&mut memory);
    let temp = TempBuffer::<'_, '_, Uninitialized>::new_uninitialized(&mut head_arena);
    let used = temp.accuire_mut_with_init(|buf: &mut [u8]| {
        buf[0] = 9;
        1
    });
    assert_eq!(used, &[9]);
    assert_eq!(head_arena.len(), 5);
}

#[test]
fn test_nested_arena() {
    let mut memory: Vec<u8> = vec![1, 2, 3, 4, 5, 6];
    let mut head_arena = HeadArenaBuffer::new(&mut memory);
    let _ = head_arena.take_front_mut(2);

    let mut nested_arena = head_arena.nested();
    assert_eq!(nested_arena.as_slice(), &[3, 4, 5, 6]);

    let detached = nested_arena.take_front_mut(3);
    assert_eq!(detached, &[3, 4, 5]);
    assert_eq!(nested_arena.as_slice(), &[6]);
}

#[test]
fn test_nested_arena_could_mutate_delegated_memory_of_original() {
    let mut memory: Vec<u8> = vec![1, 2, 3, 4, 5, 6];
    let mut head_arena = HeadArenaBuffer::new(&mut memory);
    let _ = head_arena.take_front_mut(2);

    {
        let mut nested_arena = head_arena.nested();
        nested_arena.take_front_mut(2)[0] = 10;
        assert_eq!(nested_arena.as_slice(), &[5, 6]);
    }

    let detached = head_arena.take_remaining_mut();
    assert_eq!(detached, &[10, 4, 5, 6]);
}

#[test]
fn test_nested_arena_returns_space_to_original_when_goes_out_of_scope() {
    let mut memory: Vec<u8> = vec![1, 2, 3, 4, 5, 6];
    let mut head_arena = HeadArenaBuffer::new(&mut memory);
    let _ = head_arena.take_front_mut(2);

    {
        let mut nested_arena = head_arena.nested();
        assert_eq!(nested_arena.len(), 4);
        assert_eq!(nested_arena.as_slice(), &[3, 4, 5, 6]);

        let detached = nested_arena.take_front_mut(3);
        assert_eq!(detached, &[3, 4, 5]);
        assert_eq!(nested_arena.as_slice(), &[6]);
    }

    assert_eq!(head_arena.len(), 4);
    assert_eq!(head_arena.as_slice(), &[3, 4, 5, 6]);
}

#[test]
fn subarena_writes_reach_the_memory() {
    let mut memory = [1u8, 2, 3, 4, 5, 6];
    {
        let mut head_arena = HeadArenaBuffer::new(&mut memory);
        {
            let mut sub = head_arena.subarena(2);
            sub.take_front_mut(1)[0] = 20;
            sub.take_remaining_mut()[0] = 30;
        }
        assert_eq!(head_arena.as_slice(), &[3, 4, 5, 6]);
        head_arena.borrow_mut_slice()[3] = 60;
    }
    assert_eq!(memory, [20, 30, 3, 4, 5, 60]);
}

#[test]
fn borrowed_buffer_writes_reach_the_memory() {
    let mut memory = [0u8; 6];
    {
        let mut allocator = HeadArena::new(&mut memory);
        let mut borrowed_buffer = BorrowedBuffer::new(&mut allocator);
        borrowed_buffer.append_from_slice(&[1, 2, 3]).unwrap();
        let used = borrowed_buffer.take_used();
        used[0] = 9;
        assert_eq!(allocator.len(), 3);
    }
    assert_eq!(memory, [9, 2, 3, 0, 0, 0]);
}
