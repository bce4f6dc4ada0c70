use keystream::error::{FileRole, IoOp, TransformError};
use keystream::memory::{run_cyclic, run_strict, Fault, MemoryFiles};

fn files(input: Vec<u8>, key: Vec<u8>) -> MemoryFiles {
    MemoryFiles { input: Some(input), key, staging: None }
}

fn ramp(len: usize) -> Vec<u8> {
    (0..len).map(|i| (i * 7 + 3) as u8).collect()
}

#[test]
fn cyclic_key_of_three_bytes_over_three_chunks() {
    let mut set = files(vec![0x41; 2500], vec![0x01, 0x02, 0x03]);
    assert_eq!(run_cyclic(&mut set, 1024, Fault::Never), Ok(()));
    let output = set.input.expect("the output takes the input's place");
    assert_eq!(output.len(), 2500);
    let cycle = [0x40u8, 0x43, 0x42];
    for (i, byte) in output.iter().enumerate() {
        assert_eq!(*byte, cycle[i % 3], "position {}", i);
    }
    assert_eq!(output[2499], 0x40);
    assert_eq!(set.staging, None);
    assert_eq!(set.key, vec![0x01, 0x02, 0x03]);
}

#[test]
fn cyclic_position_meets_key_position_modulo_length() {
    let input = ramp(3000);
    let key = ramp(7);
    let mut set = files(input.clone(), key.clone());
    assert_eq!(run_cyclic(&mut set, 64, Fault::Never), Ok(()));
    let output = set.input.unwrap();
    assert_eq!(output.len(), input.len());
    for i in 0..input.len() {
        assert_eq!(output[i], input[i] ^ key[i % key.len()], "position {}", i);
    }
}

#[test]
fn cyclic_key_longer_than_chunk_and_input() {
    let input = ramp(10);
    let key = ramp(5000);
    let mut set = files(input.clone(), key.clone());
    assert_eq!(run_cyclic(&mut set, 4, Fault::Never), Ok(()));
    let output = set.input.unwrap();
    for i in 0..input.len() {
        assert_eq!(output[i], input[i] ^ key[i]);
    }
}

#[test]
fn cyclic_key_of_one_byte() {
    let mut set = files(vec![0x00, 0xff, 0x0f], vec![0xf0]);
    assert_eq!(run_cyclic(&mut set, 2, Fault::Never), Ok(()));
    assert_eq!(set.input, Some(vec![0xf0, 0x0f, 0xff]));
}

#[test]
fn strict_single_chunk_meets_key_and_nonce_by_position() {
    let input = ramp(100);
    let key = ramp(150).into_iter().rev().collect::<Vec<u8>>();
    let nonce: Vec<u8> = (1..=12).collect();
    let mut set = files(input.clone(), key.clone());
    assert_eq!(run_strict(&mut set, nonce.clone(), 1024, Fault::Never), Ok(()));
    let output = set.input.unwrap();
    assert_eq!(output.len(), 100);
    for i in 0..input.len() {
        assert_eq!(output[i], input[i] ^ key[i] ^ nonce[i % 12], "position {}", i);
    }
}

#[test]
fn strict_aligned_chunks_meet_nonce_by_position() {
    let input = ramp(100);
    let key = ramp(100);
    let nonce: Vec<u8> = vec![0x10, 0x20, 0x30, 0x40];
    let mut set = files(input.clone(), key.clone());
    assert_eq!(run_strict(&mut set, nonce.clone(), 16, Fault::Never), Ok(()));
    let output = set.input.unwrap();
    for i in 0..input.len() {
        assert_eq!(output[i], input[i] ^ key[i] ^ nonce[i % 4], "position {}", i);
    }
}

#[test]
fn strict_nonce_starts_over_with_every_chunk() {
    let input = vec![0u8; 25];
    let key = vec![0u8; 25];
    let nonce: Vec<u8> = vec![1, 2, 3];
    let mut set = files(input, key);
    assert_eq!(run_strict(&mut set, nonce.clone(), 10, Fault::Never), Ok(()));
    let output = set.input.unwrap();
    for i in 0..25 {
        assert_eq!(output[i], nonce[(i % 10) % 3], "position {}", i);
    }
    assert_eq!(output[10], 1);
    assert_eq!(output[20], 1);
}

#[test]
fn strict_key_as_long_as_input_is_accepted() {
    let mut set = files(vec![1, 2, 3], vec![3, 2, 1]);
    assert_eq!(run_strict(&mut set, vec![0xff], 2, Fault::Never), Ok(()));
    assert_eq!(set.input, Some(vec![1 ^ 3 ^ 0xff, 2 ^ 2 ^ 0xff, 3 ^ 1 ^ 0xff]));
    assert_eq!(set.staging, None);
}

#[test]
fn cyclic_run_twice_restores_input() {
    let input = ramp(2500);
    let mut set = files(input.clone(), ramp(13));
    assert_eq!(run_cyclic(&mut set, 1024, Fault::Never), Ok(()));
    assert_ne!(set.input, Some(input.clone()));
    assert_eq!(run_cyclic(&mut set, 1024, Fault::Never), Ok(()));
    assert_eq!(set.input, Some(input));
}

#[test]
fn strict_run_twice_restores_input() {
    let input = ramp(2500);
    let nonce: Vec<u8> = (100..112).collect();
    let mut set = files(input.clone(), ramp(2600));
    assert_eq!(run_strict(&mut set, nonce.clone(), 1024, Fault::Never), Ok(()));
    assert_ne!(set.input, Some(input.clone()));
    assert_eq!(run_strict(&mut set, nonce, 1024, Fault::Never), Ok(()));
    assert_eq!(set.input, Some(input));
}

#[test]
fn strict_rejects_short_key_before_touching_files() {
    let mut set = files(vec![7; 10], vec![1; 9]);
    set.staging = Some(vec![9, 9]);
    assert_eq!(
        run_strict(&mut set, vec![5; 12], 4, Fault::Never),
        Err(TransformError::KeyTooShort)
    );
    assert_eq!(set.input, Some(vec![7; 10]));
    assert_eq!(set.staging, Some(vec![9, 9]));
    assert_eq!(set.key, vec![1; 9]);
}

#[test]
fn empty_key_is_rejected_under_both_policies() {
    let mut set = files(vec![7; 10], vec![]);
    assert_eq!(run_cyclic(&mut set, 4, Fault::Never), Err(TransformError::EmptyKey));
    assert_eq!(set.input, Some(vec![7; 10]));
    assert_eq!(set.staging, None);
    assert_eq!(run_strict(&mut set, vec![1], 4, Fault::Never), Err(TransformError::EmptyKey));
    assert_eq!(set.input, Some(vec![7; 10]));
    assert_eq!(set.staging, None);
}

#[test]
fn empty_key_is_rejected_even_for_empty_input() {
    let mut set = files(vec![], vec![]);
    assert_eq!(run_strict(&mut set, vec![1], 4, Fault::Never), Err(TransformError::EmptyKey));
    assert_eq!(run_cyclic(&mut set, 4, Fault::Never), Err(TransformError::EmptyKey));
    assert_eq!(set.input, Some(vec![]));
}

#[test]
fn empty_input_commits_empty_output() {
    let mut set = files(vec![], vec![1, 2, 3]);
    set.staging = Some(vec![1]);
    assert_eq!(run_cyclic(&mut set, 1024, Fault::Never), Ok(()));
    assert_eq!(set.input, Some(vec![]));
    assert_eq!(set.staging, None);
    let mut set = files(vec![], vec![1, 2, 3]);
    assert_eq!(run_strict(&mut set, vec![9; 12], 1024, Fault::Never), Ok(()));
    assert_eq!(set.input, Some(vec![]));
    assert_eq!(set.staging, None);
}

#[test]
fn missing_input_is_an_open_failure() {
    let mut set = MemoryFiles { input: None, key: vec![1], staging: None };
    let expected = Err(TransformError::Io { file: FileRole::Input, op: IoOp::Open });
    assert_eq!(run_cyclic(&mut set, 8, Fault::Never), expected);
    assert_eq!(run_strict(&mut set, vec![1], 8, Fault::Never), expected);
    assert_eq!(set.input, None);
}

#[test]
fn write_fault_keeps_input() {
    let input: Vec<u8> = (0..=255u8).collect();
    let key = vec![0xAA, 0x55];
    let mut set = files(input.clone(), key.clone());
    let result = run_cyclic(&mut set, 100, Fault::Write(2));
    assert_eq!(result, Err(TransformError::Io { file: FileRole::Staging, op: IoOp::Write }));
    assert_eq!(set.input, Some(input.clone()));
    let staged = set.staging.expect("two chunks were written");
    assert_eq!(staged.len(), 200);
    for i in 0..200 {
        assert_eq!(staged[i], input[i] ^ key[i % 2]);
    }
}

#[test]
fn write_fault_at_every_chunk_keeps_input() {
    let input = ramp(95);
    for failing in 0..10 {
        let mut set = files(input.clone(), ramp(95));
        let result = run_strict(&mut set, vec![1, 2, 3], 10, Fault::Write(failing));
        assert_eq!(result, Err(TransformError::Io { file: FileRole::Staging, op: IoOp::Write }));
        assert_eq!(set.input, Some(input.clone()));
        assert_eq!(set.staging.map(|bytes| bytes.len()), Some(failing * 10));
    }
}

#[test]
fn write_fault_after_the_last_chunk_never_strikes() {
    let mut set = files(ramp(95), ramp(3));
    assert_eq!(run_cyclic(&mut set, 10, Fault::Write(10)), Ok(()));
    assert_eq!(set.staging, None);
    let mut set = files(ramp(100), ramp(3));
    assert_eq!(run_cyclic(&mut set, 10, Fault::Write(10)), Ok(()));
    let mut set = files(vec![], ramp(3));
    assert_eq!(run_cyclic(&mut set, 10, Fault::Write(0)), Ok(()));
}

#[test]
fn create_fault_touches_nothing() {
    let mut set = files(ramp(20), ramp(3));
    set.staging = Some(vec![4, 4]);
    let result = run_cyclic(&mut set, 8, Fault::CreateStaging);
    assert_eq!(result, Err(TransformError::Io { file: FileRole::Staging, op: IoOp::Create }));
    assert_eq!(set.input, Some(ramp(20)));
    assert_eq!(set.staging, Some(vec![4, 4]));
}

#[test]
fn flush_and_delete_faults_keep_input_and_whole_staging() {
    let input = ramp(20);
    let key = ramp(3);
    let output: Vec<u8> = (0..20).map(|i| input[i] ^ key[i % 3]).collect();
    let mut set = files(input.clone(), key.clone());
    let result = run_cyclic(&mut set, 8, Fault::Flush);
    assert_eq!(result, Err(TransformError::Io { file: FileRole::Staging, op: IoOp::Flush }));
    assert_eq!(set.input, Some(input.clone()));
    assert_eq!(set.staging, Some(output.clone()));
    let mut set = files(input.clone(), key);
    let result = run_cyclic(&mut set, 8, Fault::Delete);
    assert_eq!(result, Err(TransformError::Io { file: FileRole::Input, op: IoOp::Delete }));
    assert_eq!(set.input, Some(input));
    assert_eq!(set.staging, Some(output));
}

#[test]
fn rename_fault_strands_output_under_staging_name() {
    let input = ramp(20);
    let key = ramp(3);
    let output: Vec<u8> = (0..20).map(|i| input[i] ^ key[i % 3]).collect();
    let mut set = files(input, key);
    let result = run_cyclic(&mut set, 8, Fault::Rename);
    assert_eq!(result, Err(TransformError::Replace));
    assert_eq!(set.input, None);
    assert_eq!(set.staging, Some(output));
}

#[test]
fn old_staging_content_is_discarded() {
    let mut set = files(vec![1, 2], vec![1]);
    set.staging = Some(vec![9; 50]);
    assert_eq!(run_cyclic(&mut set, 1, Fault::Never), Ok(()));
    assert_eq!(set.input, Some(vec![0, 3]));
    assert_eq!(set.staging, None);
}
